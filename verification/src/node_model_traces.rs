//! What the calls of a model command and their replies say of groups, services and runtimes.

use vstd::prelude::*;

use crate::entity::{ModelServiceDesiredState, PlacementGroupState};
use crate::identity::{ModelServiceId, PlacementGroupId};
use crate::node_model_contract::NodeModelJournalView;
use crate::node_model_groups::{
    from_placement, group_attached, group_detached, group_recovered, group_running, group_stopped,
    required, service_in_state,
};
use crate::node_model_laws::only;
use crate::node_model_world::{NodeModelCall, NodeModelWorld};

verus! {

// ---------------------------------------------------------------------------
// What one call says
// ---------------------------------------------------------------------------

/// One call reads a group, and finds it in the state.
pub open spec fn read_in(
    world: NodeModelWorld,
    at: int,
    group: PlacementGroupId,
    state: PlacementGroupState,
) -> bool {
    &&& world.calls[at] == (NodeModelCall::GroupRecord { placement_group_id: group })
    &&& (world.script.group_record)(at as nat) matches Ok(Some(record))
    &&& record.group.state == state
}

/// One call recovers a group, with or without an acknowledgement.
pub open spec fn recovers(call: NodeModelCall, group: PlacementGroupId) -> bool {
    call matches NodeModelCall::RecoverGroup { placement_group_id, .. } && placement_group_id
        == group
}

/// One call shows a group running: it is read so, or is started or recovered.
pub open spec fn runs_at(world: NodeModelWorld, at: int, group: PlacementGroupId) -> bool {
    ||| read_in(world, at, group, PlacementGroupState::Running)
    ||| world.calls[at] == (NodeModelCall::StartGroup { placement_group_id: group }) && (
    world.script.start_group)(at as nat) is Ok
    ||| recovers(world.calls[at], group) && (world.script.recover_group)(at as nat) is Ok
}

/// One call shows a group at rest: it is read stopped or removed, or is stopped.
pub open spec fn rests_at(world: NodeModelWorld, at: int, group: PlacementGroupId) -> bool {
    ||| read_in(world, at, group, PlacementGroupState::Stopped)
    ||| read_in(world, at, group, PlacementGroupState::Removed)
    ||| world.calls[at] == (NodeModelCall::StopGroup { placement_group_id: group }) && (
    world.script.stop_group)(at as nat) is Ok
}

/// One call shows a group gone: it is read removed, or is removed.
pub open spec fn gone_at(world: NodeModelWorld, at: int, group: PlacementGroupId) -> bool {
    ||| read_in(world, at, group, PlacementGroupState::Removed)
    ||| world.calls[at] == (NodeModelCall::RemoveGroup { placement_group_id: group }) && (
    world.script.remove_group)(at as nat) is Ok
}

/// One call attaches a group to a service.
pub open spec fn attaches(
    call: NodeModelCall,
    service: ModelServiceId,
    group: PlacementGroupId,
) -> bool {
    call matches NodeModelCall::AttachGroup { service_id, placement_group_id, .. } && service_id
        == service && placement_group_id == group
}

/// One call detaches a group from a service.
pub open spec fn detaches(
    call: NodeModelCall,
    service: ModelServiceId,
    group: PlacementGroupId,
) -> bool {
    call matches NodeModelCall::DetachGroup { service_id, placement_group_id, .. } && service_id
        == service && placement_group_id == group
}

/// One call moves a service to the state.
pub open spec fn moves(
    call: NodeModelCall,
    service: ModelServiceId,
    state: ModelServiceDesiredState,
) -> bool {
    call matches NodeModelCall::TransitionService { service_id, desired_state, .. } && service_id
        == service && desired_state == state
}

/// One call shows that a service holds a group: it is read so, or the group is attached.
pub open spec fn holds_at(
    world: NodeModelWorld,
    at: int,
    service: ModelServiceId,
    group: PlacementGroupId,
) -> bool {
    ||| world.calls[at] == (NodeModelCall::Service { service_id: service }) && ((
    world.script.service)(at as nat) matches Ok(read)
        && read.service.placement_group_ids.contains(group))
    ||| attaches(world.calls[at], service, group) && (world.script.attach_group)(at as nat) is Ok
}

/// One call shows that a service lacks a group: it is read so, or the group is detached.
pub open spec fn lacks_at(
    world: NodeModelWorld,
    at: int,
    service: ModelServiceId,
    group: PlacementGroupId,
) -> bool {
    ||| world.calls[at] == (NodeModelCall::Service { service_id: service }) && ((
    world.script.service)(at as nat) matches Ok(read)
        && !read.service.placement_group_ids.contains(group))
    ||| detaches(world.calls[at], service, group) && (world.script.detach_group)(at as nat) is Ok
}

/// One call shows a service in the state: it is read so, or is moved there.
pub open spec fn intends_at(
    world: NodeModelWorld,
    at: int,
    service: ModelServiceId,
    state: ModelServiceDesiredState,
) -> bool {
    ||| world.calls[at] == (NodeModelCall::Service { service_id: service }) && ((
    world.script.service)(at as nat) matches Ok(read) && read.service.desired_state == state)
    ||| moves(world.calls[at], service, state) && (world.script.transition_service)(
        at as nat,
    ) is Ok
}

// ---------------------------------------------------------------------------
// How a trace ends
// ---------------------------------------------------------------------------

/// From one position on a group is shown running, and nothing stops or removes it afterwards.
pub open spec fn ends_running(world: NodeModelWorld, from: nat, group: PlacementGroupId) -> bool {
    exists|at: int|
        from <= at < world.calls.len() && #[trigger] runs_at(world, at, group) && forall|later: int|
            at < later < world.calls.len() ==> #[trigger] world.calls[later]
                != (NodeModelCall::StopGroup { placement_group_id: group }) && world.calls[later]
                != (NodeModelCall::RemoveGroup { placement_group_id: group })
}

/// From one position on a group is shown at rest, and nothing starts or recovers it afterwards.
pub open spec fn ends_at_rest(world: NodeModelWorld, from: nat, group: PlacementGroupId) -> bool {
    exists|at: int|
        from <= at < world.calls.len() && #[trigger] rests_at(world, at, group) && forall|
            later: int,
        |
            at < later < world.calls.len() ==> #[trigger] world.calls[later]
                != (NodeModelCall::StartGroup { placement_group_id: group }) && !recovers(
                world.calls[later],
                group,
            )
}

/// From one position on a group is shown gone, and nothing stages it afterwards.
pub open spec fn ends_gone(world: NodeModelWorld, from: nat, group: PlacementGroupId) -> bool {
    exists|at: int|
        from <= at < world.calls.len() && #[trigger] gone_at(world, at, group) && forall|later: int|
            at < later < world.calls.len() ==> !stages(#[trigger] world.calls[later], group)
}

/// One call stages a group.
pub open spec fn stages(call: NodeModelCall, group: PlacementGroupId) -> bool {
    call matches NodeModelCall::StageGroup { request } && request.placement_group_id == group
}

/// From one position on a service is shown to hold a group, and nothing detaches it afterwards.
pub open spec fn ends_bound(
    world: NodeModelWorld,
    from: nat,
    service: ModelServiceId,
    group: PlacementGroupId,
) -> bool {
    exists|at: int|
        from <= at < world.calls.len() && #[trigger] holds_at(world, at, service, group) && forall|
            later: int,
        |
            at < later < world.calls.len() ==> !detaches(
                #[trigger] world.calls[later],
                service,
                group,
            )
}

/// From one position on a service is shown to lack a group, and nothing attaches it afterwards.
pub open spec fn ends_unbound(
    world: NodeModelWorld,
    from: nat,
    service: ModelServiceId,
    group: PlacementGroupId,
) -> bool {
    exists|at: int|
        from <= at < world.calls.len() && #[trigger] lacks_at(world, at, service, group) && forall|
            later: int,
        |
            at < later < world.calls.len() ==> !attaches(
                #[trigger] world.calls[later],
                service,
                group,
            )
}

/// From one position on a service is shown in the state, and nothing moves any service afterwards.
pub open spec fn ends_intending(
    world: NodeModelWorld,
    from: nat,
    service: ModelServiceId,
    state: ModelServiceDesiredState,
) -> bool {
    exists|at: int|
        from <= at < world.calls.len() && #[trigger] intends_at(world, at, service, state)
            && forall|later: int|
            at < later < world.calls.len() ==> !(#[trigger] world.calls[later] is TransitionService)
}

// ---------------------------------------------------------------------------
// Carrying what a trace shows
// ---------------------------------------------------------------------------

/// A set of calls.
pub type Calls = spec_fn(NodeModelCall) -> bool;

/// Every call.
pub open spec fn any_call() -> Calls {
    |call: NodeModelCall| true
}

/// The set holds every call that changes nothing.
pub open spec fn admits_reads(allowed: Calls) -> bool {
    forall|call: NodeModelCall| !call.mutates() ==> #[trigger] allowed(call)
}

/// The journal store hands back what it was given to write.
pub open spec fn store_keeps(world: NodeModelWorld) -> bool {
    forall|at: int|
        0 <= at < world.calls.len() ==> match #[trigger] world.calls[at] {
            NodeModelCall::CreateJournal { journal } => (world.script.create_journal)(
                at as nat,
            ) matches Ok(stored) ==> stored.journal == journal,
            NodeModelCall::ReplaceJournal { journal, .. } => (world.script.replace_journal)(
                at as nat,
            ) matches Ok(stored) ==> stored.journal == journal,
            _ => true,
        }
}

pub(crate) proof fn lemma_store_kept(earlier: NodeModelWorld, later: NodeModelWorld)
    requires
        store_keeps(later),
        only(earlier, later, any_call()),
    ensures
        store_keeps(earlier),
{
    assert forall|at: int| 0 <= at < earlier.calls.len() implies match #[trigger] earlier.calls[at] {
        NodeModelCall::CreateJournal { journal } => (earlier.script.create_journal)(
            at as nat,
        ) matches Ok(stored) ==> stored.journal == journal,
        NodeModelCall::ReplaceJournal { journal, .. } => (earlier.script.replace_journal)(
            at as nat,
        ) matches Ok(stored) ==> stored.journal == journal,
        _ => true,
    } by {
        assert(later.calls[at] == earlier.calls[at]);
    }
}

pub(crate) proof fn lemma_widened(
    earlier: NodeModelWorld,
    later: NodeModelWorld,
    narrow: Calls,
    wide: Calls,
)
    requires
        only(earlier, later, narrow),
        forall|call: NodeModelCall| #[trigger] narrow(call) ==> wide(call),
    ensures
        only(earlier, later, wide),
{
    assert forall|i: int| earlier.calls.len() <= i < later.calls.len() implies wide(
        #[trigger] later.calls[i],
    ) by {
        assert(narrow(later.calls[i]));
    }
}

pub(crate) proof fn carry_running(
    earlier: NodeModelWorld,
    later: NodeModelWorld,
    from: nat,
    group: PlacementGroupId,
    allowed: Calls,
)
    requires
        ends_running(earlier, from, group),
        only(earlier, later, allowed),
        !allowed(NodeModelCall::StopGroup { placement_group_id: group }),
        !allowed(NodeModelCall::RemoveGroup { placement_group_id: group }),
    ensures
        ends_running(later, from, group),
{
    let at = choose|at: int|
        from <= at < earlier.calls.len() && #[trigger] runs_at(earlier, at, group) && forall|
            next: int,
        |
            at < next < earlier.calls.len() ==> #[trigger] earlier.calls[next]
                != (NodeModelCall::StopGroup { placement_group_id: group }) && earlier.calls[next]
                != (NodeModelCall::RemoveGroup { placement_group_id: group });
    assert(later.calls[at] == earlier.calls[at]);
    assert(runs_at(later, at, group));
    assert forall|next: int| at < next < later.calls.len() implies #[trigger] later.calls[next]
        != (NodeModelCall::StopGroup { placement_group_id: group }) && later.calls[next] != (
    NodeModelCall::RemoveGroup { placement_group_id: group }) by {
        if next < earlier.calls.len() {
            assert(later.calls[next] == earlier.calls[next]);
        } else {
            assert(allowed(later.calls[next]));
        }
    }
}

pub(crate) proof fn carry_at_rest(
    earlier: NodeModelWorld,
    later: NodeModelWorld,
    from: nat,
    group: PlacementGroupId,
    allowed: Calls,
)
    requires
        ends_at_rest(earlier, from, group),
        only(earlier, later, allowed),
        forall|call: NodeModelCall| #[trigger]
            allowed(call) ==> call != (NodeModelCall::StartGroup { placement_group_id: group })
                && !recovers(call, group),
    ensures
        ends_at_rest(later, from, group),
{
    let at = choose|at: int|
        from <= at < earlier.calls.len() && #[trigger] rests_at(earlier, at, group) && forall|
            next: int,
        |
            at < next < earlier.calls.len() ==> #[trigger] earlier.calls[next]
                != (NodeModelCall::StartGroup { placement_group_id: group }) && !recovers(
                earlier.calls[next],
                group,
            );
    assert(later.calls[at] == earlier.calls[at]);
    assert(rests_at(later, at, group));
    assert forall|next: int| at < next < later.calls.len() implies #[trigger] later.calls[next]
        != (NodeModelCall::StartGroup { placement_group_id: group }) && !recovers(
        later.calls[next],
        group,
    ) by {
        if next < earlier.calls.len() {
            assert(later.calls[next] == earlier.calls[next]);
        } else {
            assert(allowed(later.calls[next]));
        }
    }
}

pub(crate) proof fn carry_gone(
    earlier: NodeModelWorld,
    later: NodeModelWorld,
    from: nat,
    group: PlacementGroupId,
    allowed: Calls,
)
    requires
        ends_gone(earlier, from, group),
        only(earlier, later, allowed),
        forall|call: NodeModelCall| #[trigger] allowed(call) ==> !stages(call, group),
    ensures
        ends_gone(later, from, group),
{
    let at = choose|at: int|
        from <= at < earlier.calls.len() && #[trigger] gone_at(earlier, at, group) && forall|
            next: int,
        |
            at < next < earlier.calls.len() ==> !stages(#[trigger] earlier.calls[next], group);
    assert(later.calls[at] == earlier.calls[at]);
    assert(gone_at(later, at, group));
    assert forall|next: int| at < next < later.calls.len() implies !stages(
        #[trigger] later.calls[next],
        group,
    ) by {
        if next < earlier.calls.len() {
            assert(later.calls[next] == earlier.calls[next]);
        } else {
            assert(allowed(later.calls[next]));
        }
    }
}

pub(crate) proof fn carry_bound(
    earlier: NodeModelWorld,
    later: NodeModelWorld,
    from: nat,
    service: ModelServiceId,
    group: PlacementGroupId,
    allowed: Calls,
)
    requires
        ends_bound(earlier, from, service, group),
        only(earlier, later, allowed),
        forall|call: NodeModelCall| #[trigger] allowed(call) ==> !detaches(call, service, group),
    ensures
        ends_bound(later, from, service, group),
{
    let at = choose|at: int|
        from <= at < earlier.calls.len() && #[trigger] holds_at(earlier, at, service, group)
            && forall|next: int|
            at < next < earlier.calls.len() ==> !detaches(
                #[trigger] earlier.calls[next],
                service,
                group,
            );
    assert(later.calls[at] == earlier.calls[at]);
    assert(holds_at(later, at, service, group));
    assert forall|next: int| at < next < later.calls.len() implies !detaches(
        #[trigger] later.calls[next],
        service,
        group,
    ) by {
        if next < earlier.calls.len() {
            assert(later.calls[next] == earlier.calls[next]);
        } else {
            assert(allowed(later.calls[next]));
        }
    }
}

pub(crate) proof fn carry_unbound(
    earlier: NodeModelWorld,
    later: NodeModelWorld,
    from: nat,
    service: ModelServiceId,
    group: PlacementGroupId,
    allowed: Calls,
)
    requires
        ends_unbound(earlier, from, service, group),
        only(earlier, later, allowed),
        forall|call: NodeModelCall| #[trigger] allowed(call) ==> !attaches(call, service, group),
    ensures
        ends_unbound(later, from, service, group),
{
    let at = choose|at: int|
        from <= at < earlier.calls.len() && #[trigger] lacks_at(earlier, at, service, group)
            && forall|next: int|
            at < next < earlier.calls.len() ==> !attaches(
                #[trigger] earlier.calls[next],
                service,
                group,
            );
    assert(later.calls[at] == earlier.calls[at]);
    assert(lacks_at(later, at, service, group));
    assert forall|next: int| at < next < later.calls.len() implies !attaches(
        #[trigger] later.calls[next],
        service,
        group,
    ) by {
        if next < earlier.calls.len() {
            assert(later.calls[next] == earlier.calls[next]);
        } else {
            assert(allowed(later.calls[next]));
        }
    }
}

pub(crate) proof fn carry_intending(
    earlier: NodeModelWorld,
    later: NodeModelWorld,
    from: nat,
    service: ModelServiceId,
    state: ModelServiceDesiredState,
    allowed: Calls,
)
    requires
        ends_intending(earlier, from, service, state),
        only(earlier, later, allowed),
        forall|call: NodeModelCall| #[trigger] allowed(call) ==> !(call is TransitionService),
    ensures
        ends_intending(later, from, service, state),
{
    let at = choose|at: int|
        from <= at < earlier.calls.len() && #[trigger] intends_at(earlier, at, service, state)
            && forall|next: int|
            at < next < earlier.calls.len() ==> !(#[trigger] earlier.calls[next]
                is TransitionService);
    assert(later.calls[at] == earlier.calls[at]);
    assert(intends_at(later, at, service, state));
    assert forall|next: int| at < next < later.calls.len() implies !(
    #[trigger] later.calls[next] is TransitionService) by {
        if next < earlier.calls.len() {
            assert(later.calls[next] == earlier.calls[next]);
        } else {
            assert(allowed(later.calls[next]));
        }
    }
}

// ---------------------------------------------------------------------------
// Single steps
// ---------------------------------------------------------------------------

pub(crate) proof fn step_running(world: NodeModelWorld, group: PlacementGroupId, allowed: Calls)
    requires
        admits_reads(allowed),
        allowed(NodeModelCall::StartGroup { placement_group_id: group }),
    ensures
        only(world, group_running(world, group).0, allowed),
        group_running(world, group).1 is Ok ==> ends_running(
            group_running(world, group).0,
            world.calls.len(),
            group,
        ),
{
    let from = world.calls.len() as int;
    let (after, result) = group_running(world, group);
    let (a, record) = required(from_placement(world.group_record(group)));
    let (b, reply) = a.start_group(group);
    if result is Ok {
        if after == a {
            assert(runs_at(after, from, group));
        } else if reply is Ok {
            assert(runs_at(after, from + 1, group));
        } else {
            assert(runs_at(after, from + 2, group));
        }
    }
}

pub(crate) proof fn step_stopped(world: NodeModelWorld, group: PlacementGroupId, allowed: Calls)
    requires
        admits_reads(allowed),
        allowed(NodeModelCall::StopGroup { placement_group_id: group }),
    ensures
        only(world, group_stopped(world, group).0, allowed),
        group_stopped(world, group).1 is Ok ==> ends_at_rest(
            group_stopped(world, group).0,
            world.calls.len(),
            group,
        ),
{
    let from = world.calls.len() as int;
    let (after, result) = group_stopped(world, group);
    let (a, record) = required(from_placement(world.group_record(group)));
    let (b, reply) = a.stop_group(group);
    if result is Ok {
        if after == a {
            assert(rests_at(after, from, group));
        } else if reply is Ok {
            assert(rests_at(after, from + 1, group));
        } else {
            assert(rests_at(after, from + 2, group));
        }
    }
}

pub(crate) proof fn step_recovered(
    world: NodeModelWorld,
    group: PlacementGroupId,
    acknowledge: bool,
    allowed: Calls,
)
    requires
        admits_reads(allowed),
        allowed(NodeModelCall::StartGroup { placement_group_id: group }),
        allowed(
            NodeModelCall::RecoverGroup {
                placement_group_id: group,
                acknowledge_protection_trips: acknowledge,
            },
        ),
    ensures
        only(world, group_recovered(world, group, acknowledge).0, allowed),
        group_recovered(world, group, acknowledge).1 is Ok ==> ends_running(
            group_recovered(world, group, acknowledge).0,
            world.calls.len(),
            group,
        ),
{
    let from = world.calls.len() as int;
    let (after, result) = group_recovered(world, group, acknowledge);
    let (a, record) = required(from_placement(world.group_record(group)));
    if result is Ok {
        if after == a {
            assert(runs_at(after, from, group));
        } else if after.calls.len() == from + 2 {
            assert(runs_at(after, from + 1, group));
        } else {
            assert(runs_at(after, from + 2, group));
        }
    }
}

pub(crate) proof fn step_intending(
    world: NodeModelWorld,
    journal: NodeModelJournalView,
    name: Seq<char>,
    state: ModelServiceDesiredState,
    allowed: Calls,
)
    requires
        admits_reads(allowed),
        forall|call: NodeModelCall|
            moves(call, journal.service_id, state) ==> #[trigger] allowed(call),
    ensures
        only(world, service_in_state(world, journal, name, state).0, allowed),
        service_in_state(world, journal, name, state).1 is Ok ==> ends_intending(
            service_in_state(world, journal, name, state).0,
            world.calls.len(),
            journal.service_id,
            state,
        ),
{
    let from = world.calls.len() as int;
    let (after, result) = service_in_state(world, journal, name, state);
    if result is Ok {
        if after.calls.len() == from + 1 {
            assert(intends_at(after, from, journal.service_id, state));
        } else {
            assert(moves(after.calls[from + 2], journal.service_id, state));
            assert(intends_at(after, from + 2, journal.service_id, state));
        }
    }
}

pub(crate) proof fn step_bound(
    world: NodeModelWorld,
    journal: NodeModelJournalView,
    group: PlacementGroupId,
    name: Seq<char>,
    allowed: Calls,
)
    requires
        admits_reads(allowed),
        forall|call: NodeModelCall|
            attaches(call, journal.service_id, group) ==> #[trigger] allowed(call),
    ensures
        only(world, group_attached(world, journal, group, name).0, allowed),
        group_attached(world, journal, group, name).1 is Ok ==> ends_bound(
            group_attached(world, journal, group, name).0,
            world.calls.len(),
            journal.service_id,
            group,
        ),
{
    let from = world.calls.len() as int;
    let (after, result) = group_attached(world, journal, group, name);
    if result is Ok {
        if after.calls.len() == from + 1 {
            assert(holds_at(after, from, journal.service_id, group));
        } else {
            assert(attaches(after.calls[from + 2], journal.service_id, group));
            assert(holds_at(after, from + 2, journal.service_id, group));
        }
    }
}

pub(crate) proof fn step_unbound(
    world: NodeModelWorld,
    journal: NodeModelJournalView,
    group: PlacementGroupId,
    name: Seq<char>,
    stays: bool,
    allowed: Calls,
)
    requires
        admits_reads(allowed),
        forall|call: NodeModelCall|
            detaches(call, journal.service_id, group) ==> #[trigger] allowed(call),
    ensures
        only(world, group_detached(world, journal, group, name, stays).0, allowed),
        group_detached(world, journal, group, name, stays).1 is Ok && !stays ==> ends_unbound(
            group_detached(world, journal, group, name, stays).0,
            world.calls.len(),
            journal.service_id,
            group,
        ),
{
    let from = world.calls.len() as int;
    let (after, result) = group_detached(world, journal, group, name, stays);
    if result is Ok && !stays {
        if after.calls.len() == from + 1 {
            assert(lacks_at(after, from, journal.service_id, group));
        } else {
            assert(detaches(after.calls[from + 2], journal.service_id, group));
            assert(lacks_at(after, from + 2, journal.service_id, group));
        }
    }
}

} // verus!
