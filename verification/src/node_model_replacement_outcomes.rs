//! What an update or rollback that succeeded has brought about, as its calls and their replies show
//! it.

use vstd::prelude::*;

use crate::entity::{
    ModelServiceDesiredState, PlacementGroupState, RuntimeInstallationState,
    RuntimeInstallationView,
};
use crate::identity::{ModelServiceId, NodeId, PlacementGroupId};
use crate::node_model_contract::{
    NodeModelInstallGroupView, NodeModelJournalView, NodeModelRuntimeDisposition,
    NodeModelRuntimeReceiptView, VersionedNodeModelJournalView,
};
use crate::node_model_execution::{
    all_retained_released, group_resolved, install_executed, intent_stopped, node_resolved,
    nodes_resolved, receipt_from, replacement_executed, retained_released, rollback_executed,
    rollback_group_read, rollback_nodes_read, rollbacks_read, update_executed, updates_resolved,
};
use crate::node_model_groups::{
    all_stopped_reversed, from_placement, from_runtime, group_stopped, redacted, required,
    service_in_state,
};
use crate::node_model_laws::{join, only};
use crate::node_model_outcomes::{
    every_stopped_reversed, lemma_at_rest_from, lemma_intending_from, moves_to, stops_of,
};
use crate::node_model_placement_outcomes::{
    carry_stands, cover_nodes, frame_install, frame_installations, law_install_places_every_group,
    law_install_places_only_planned_groups, nodes_covered, placed, placing, placing_only,
    same_command, same_groups, stands,
};
use crate::node_model_rules::{group_phase, group_runtime};
use crate::node_model_traces::{
    admits_reads, any_call, carry_at_rest, carry_gone, carry_unbound, detaches, ends_at_rest,
    ends_bound, ends_gone, ends_intending, ends_unbound, gone_at, lacks_at, lemma_store_kept,
    lemma_widened, moves, stages, step_intending, step_stopped, step_unbound, store_keeps, Calls,
};
use crate::node_model_world::{NodeModelCall, NodeModelWorld};

verus! {

// ---------------------------------------------------------------------------
// Releasing what is replaced
// ---------------------------------------------------------------------------

/// The groups that a replacement takes the place of.
pub open spec fn replaced_groups(journal: NodeModelJournalView) -> Seq<PlacementGroupId> {
    Seq::new(
        journal.retained_groups.len(),
        |i: int| journal.retained_groups[i].source_group_id,
    )
}

/// The calls that release the groups of a list and no other, beside those that change nothing: they
/// are stopped, removed and detached.
pub open spec fn releases_of(groups: Seq<PlacementGroupId>) -> Calls {
    |call: NodeModelCall|
        match call {
            NodeModelCall::StopGroup { placement_group_id } => groups.contains(placement_group_id),
            NodeModelCall::RemoveGroup { placement_group_id } => groups.contains(
                placement_group_id,
            ),
            NodeModelCall::DetachGroup { placement_group_id, .. } => groups.contains(
                placement_group_id,
            ),
            _ => !call.mutates(),
        }
}

pub(crate) proof fn lemma_gone_from(
    world: NodeModelWorld,
    late: nat,
    early: nat,
    group: PlacementGroupId,
)
    requires
        ends_gone(world, late, group),
        early <= late,
    ensures
        ends_gone(world, early, group),
{
    let at = choose|at: int|
        late <= at < world.calls.len() && #[trigger] gone_at(world, at, group) && forall|next: int|
            at < next < world.calls.len() ==> !stages(#[trigger] world.calls[next], group);
    assert(gone_at(world, at, group));
}

pub(crate) proof fn lemma_unbound_from(
    world: NodeModelWorld,
    late: nat,
    early: nat,
    service: ModelServiceId,
    group: PlacementGroupId,
)
    requires
        ends_unbound(world, late, service, group),
        early <= late,
    ensures
        ends_unbound(world, early, service, group),
{
    let at = choose|at: int|
        late <= at < world.calls.len() && #[trigger] lacks_at(world, at, service, group) && forall|
            next: int,
        |
            at < next < world.calls.len() ==> !crate::node_model_traces::attaches(
                #[trigger] world.calls[next],
                service,
                group,
            );
    assert(lacks_at(world, at, service, group));
}

proof fn one_released(
    world: NodeModelWorld,
    journal: NodeModelJournalView,
    source: PlacementGroupId,
    allowed: Calls,
)
    requires
        admits_reads(allowed),
        allowed(NodeModelCall::StopGroup { placement_group_id: source }),
        allowed(NodeModelCall::RemoveGroup { placement_group_id: source }),
        forall|call: NodeModelCall|
            detaches(call, journal.service_id, source) ==> #[trigger] allowed(call),
        forall|call: NodeModelCall| #[trigger] allowed(call) ==> !stages(call, source),
    ensures
        ({
            let (after, result) = retained_released(world, journal, source);
            &&& only(world, after, allowed)
            &&& result is Ok ==> ends_gone(after, world.calls.len(), source) && ends_unbound(
                after,
                world.calls.len(),
                journal.service_id,
                source,
            )
        }),
{
    let (after, result) = retained_released(world, journal, source);
    let from = world.calls.len();
    let name = group_phase("group."@, source, ".replace"@);
    let a = required(from_placement(world.group_record(source)));
    if let Ok(record) = a.1 {
        if record.group.state == PlacementGroupState::Removed {
            step_unbound(a.0, journal, source, name, false, allowed);
            join(world, a.0, after, allowed);
            assert(gone_at(a.0, from as int, source));
            assert(ends_gone(a.0, from, source));
            if result is Ok {
                carry_gone(a.0, after, from, source, allowed);
                lemma_unbound_from(
                    after,
                    a.0.calls.len(),
                    from,
                    journal.service_id,
                    source,
                );
            }
        } else {
            step_stopped(a.0, source, allowed);
            let b = group_stopped(a.0, source);
            join(world, a.0, b.0, allowed);
            if b.1 is Ok {
                let c = b.0.remove_group(source);
                join(world, b.0, c.0, allowed);
                if c.1 is Ok {
                    step_unbound(c.0, journal, source, name, false, allowed);
                    join(world, c.0, after, allowed);
                    let at = b.0.calls.len() as int;
                    assert(gone_at(c.0, at, source));
                    assert(ends_gone(c.0, from, source));
                    if result is Ok {
                        carry_gone(c.0, after, from, source, allowed);
                        lemma_unbound_from(
                            after,
                            c.0.calls.len(),
                            from,
                            journal.service_id,
                            source,
                        );
                    }
                }
            }
        }
    }
}

pub(crate) proof fn every_released(world: NodeModelWorld, journal: NodeModelJournalView, at: int)
    requires
        0 <= at <= journal.retained_groups.len(),
    ensures
        ({
            let (after, result) = all_retained_released(world, journal, at);
            let groups = replaced_groups(journal);
            &&& only(world, after, releases_of(groups))
            &&& result is Ok ==> forall|k: int|
                at <= k < groups.len() ==> ends_gone(
                    after,
                    world.calls.len(),
                    #[trigger] groups[k],
                ) && ends_unbound(after, world.calls.len(), journal.service_id, groups[k])
        }),
    decreases journal.retained_groups.len() - at,
{
    let groups = replaced_groups(journal);
    let allowed = releases_of(groups);
    let from = world.calls.len();
    if at < journal.retained_groups.len() {
        let source = groups[at];
        assert(groups.contains(source));
        one_released(world, journal, source, allowed);
        let (next, result) = retained_released(world, journal, source);
        if result is Ok {
            every_released(next, journal, at + 1);
            let (after, all) = all_retained_released(next, journal, at + 1);
            join(world, next, after, allowed);
            if all is Ok {
                carry_gone(next, after, from, source, allowed);
                carry_unbound(next, after, from, journal.service_id, source, allowed);
                assert forall|k: int| at <= k < groups.len() implies ends_gone(
                    after,
                    from,
                    #[trigger] groups[k],
                ) && ends_unbound(after, from, journal.service_id, groups[k]) by {
                    if k > at {
                        lemma_gone_from(after, next.calls.len(), from, groups[k]);
                        lemma_unbound_from(
                            after,
                            next.calls.len(),
                            from,
                            journal.service_id,
                            groups[k],
                        );
                    }
                }
            }
        }
    }
}

// ---------------------------------------------------------------------------
// Replacement
// ---------------------------------------------------------------------------

/// What a replacement may do, beside what changes nothing: release the replaced groups, place the
/// planned ones, and for a service that was stopped stop the committed groups and the service again.
pub open spec fn replacing(
    journal: NodeModelJournalView,
    was_stopped: bool,
) -> Calls {
    |call: NodeModelCall|
        {
            ||| releases_of(replaced_groups(journal))(call)
            ||| placing_only(journal.planned_group_ids)(call)
            ||| was_stopped && (call matches NodeModelCall::StopGroup { placement_group_id } && (
            journal.planned_group_ids.contains(placement_group_id)
                || journal.placement_group_ids.contains(placement_group_id)))
            ||| was_stopped && call is TransitionService && call->TransitionService_desired_state
                == ModelServiceDesiredState::Stopped
        }
}

/// The service intent that a replacement begins with: its first call reads the service.
pub open spec fn first_intent(
    world: NodeModelWorld,
    from: nat,
    service: ModelServiceId,
) -> Option<ModelServiceDesiredState> {
    if from < world.calls.len() && world.calls[from as int] == (NodeModelCall::Service {
        service_id: service,
    }) {
        match (world.script.service)(from) {
            Ok(read) => Some(read.service.desired_state),
            Err(_) => None,
        }
    } else {
        None
    }
}

/// One planned group of a stopped service stands, at rest.
pub open spec fn stands_at_rest(
    world: NodeModelWorld,
    from: nat,
    journal: NodeModelJournalView,
    index: int,
) -> bool {
    let group = journal.planned_group_ids[index];
    &&& placed(
        world,
        from,
        journal.service_id,
        index as usize,
        group,
        journal.install_groups[index].node_ids,
    )
    &&& ends_bound(world, from, journal.service_id, group)
    &&& ends_at_rest(world, from, group)
}

/// From one position on a replacement took place. Every replaced group is gone and the service has
/// given it up. Every planned group stands, and is committed. The service keeps the intent that it
/// was read with: where it was stopped, every planned group ends at rest and the service stopped;
/// else every planned group ends running and so does the service.
pub open spec fn replaced(
    world: NodeModelWorld,
    from: nat,
    journal: NodeModelJournalView,
    done: NodeModelJournalView,
) -> bool {
    let count = journal.install_groups.len();
    let groups = replaced_groups(journal);
    &&& same_command(journal, done)
    &&& count <= done.placement_group_ids.len()
    &&& forall|k: int|
        0 <= k < count ==> (#[trigger] done.placement_group_ids[k]) == journal.planned_group_ids[k]
    &&& forall|k: int|
        0 <= k < groups.len() && !journal.planned_group_ids.contains(#[trigger] groups[k])
            ==> ends_gone(world, from, groups[k]) && ends_unbound(
            world,
            from,
            journal.service_id,
            groups[k],
        )
    &&& first_intent(world, from, journal.service_id) is Some
    &&& if first_intent(world, from, journal.service_id) == Some(
        ModelServiceDesiredState::Stopped,
    ) {
        &&& forall|k: int| 0 <= k < count ==> #[trigger] stands_at_rest(world, from, journal, k)
        &&& ends_intending(
            world,
            from,
            journal.service_id,
            ModelServiceDesiredState::Stopped,
        )
    } else {
        &&& forall|k: int| 0 <= k < count ==> #[trigger] stands(world, from, journal, k)
        &&& ends_intending(
            world,
            from,
            journal.service_id,
            ModelServiceDesiredState::Running,
        )
    }
}

/// A replacement does what [`replaced`] says when it succeeds, and touches nothing beyond
/// [`replacing`] whatever comes of it.
pub proof fn law_replacement_keeps_the_intent(
    world: NodeModelWorld,
    journal: VersionedNodeModelJournalView,
)
    requires
        store_keeps(replacement_executed(world, journal).0),
        journal.journal.install_groups.len() <= usize::MAX,
    ensures
        ({
            let (after, done) = replacement_executed(world, journal);
            let from = world.calls.len();
            let was_stopped = first_intent(after, from, journal.journal.service_id) == Some(
                ModelServiceDesiredState::Stopped,
            );
            &&& only(world, after, replacing(journal.journal, was_stopped))
            &&& done matches Ok(done) ==> replaced(after, from, journal.journal, done.journal)
        }),
{
    let (after, done) = replacement_executed(world, journal);
    let from = world.calls.len();
    let model = journal.journal;
    let service = model.service_id;
    let a = redacted(world.service(service));
    if a.1 is Ok {
        let was_stopped = a.1->Ok_0.service.desired_state == ModelServiceDesiredState::Stopped;
        let wide = replacing(model, was_stopped);
        every_released(a.0, model, 0);
        let b = all_retained_released(a.0, model, 0);
        lemma_widened(a.0, b.0, releases_of(replaced_groups(model)), wide);
        join(world, a.0, b.0, wide);
        lemma_widened(world, b.0, wide, any_call());
        if b.1 is Ok {
            let c = install_executed(b.0, journal);
            frame_install(b.0, journal, any_call());
            if c.1 is Ok && was_stopped {
                stopped_again(c.0, c.1->Ok_0);
                lemma_widened(
                    c.0,
                    after,
                    stopping_again(c.1->Ok_0.journal),
                    any_call(),
                );
                lemma_store_kept(c.0, after);
            }
            law_install_places_only_planned_groups(b.0, journal);
            law_install_places_every_group(b.0, journal);
            let planning = placing_only(model.planned_group_ids);
            lemma_widened(b.0, c.0, planning, wide);
            join(world, b.0, c.0, wide);
            join(a.0, b.0, c.0, any_call());
            if let Ok(placed_journal) = c.1 {
                let last = placed_journal.journal;
                if was_stopped {
                    let again = stopping_again(last);
                    assert forall|call: NodeModelCall| #[trigger] again(call) implies wide(call) by {
                        if let NodeModelCall::StopGroup { placement_group_id } = call {
                            if last.placement_group_ids.contains(placement_group_id) {
                                let k = choose|k: int|
                                    0 <= k < last.placement_group_ids.len()
                                        && last.placement_group_ids[k] == placement_group_id;
                                if k < model.install_groups.len() {
                                    assert(stands(c.0, b.0.calls.len(), model, k));
                                    assert(model.planned_group_ids[k] == placement_group_id);
                                    planned_long_enough(b.0, journal);
                                    assert(model.planned_group_ids.contains(placement_group_id));
                                } else {
                                    assert(model.placement_group_ids[k] == placement_group_id);
                                    assert(model.placement_group_ids.contains(placement_group_id));
                                }
                            }
                        }
                    }
                    lemma_widened(c.0, after, again, wide);
                    join(world, c.0, after, wide);
                    join(a.0, c.0, after, any_call());
                }
                assert(after.calls[from as int] == a.0.calls[from as int]);
                if let Ok(done) = done {
                    replaced_groups_stay_gone(a.0, b.0, c.0, after, from, model, last, was_stopped);
                    if was_stopped {
                        rests_again(b.0, c.0, after, from, model, placed_journal);
                    } else {
                        assert(only(after, after, placing()));
                        assert forall|k: int| 0 <= k < model.install_groups.len() implies
                            #[trigger] stands(after, from, model, k) by {
                            assert(stands(c.0, b.0.calls.len(), model, k));
                            carry_stands(c.0, after, b.0.calls.len(), from, model, k);
                        }
                        lemma_intending_from(
                            after,
                            b.0.calls.len(),
                            from,
                            service,
                            ModelServiceDesiredState::Running,
                        );
                    }
                    assert(replaced(after, from, model, done.journal));
                }
            }
        }
        lemma_widened(world, after, wide, any_call());
        assert(after.calls[from as int] == a.0.calls[from as int]);
    }
}

proof fn planned_long_enough(world: NodeModelWorld, journal: VersionedNodeModelJournalView)
    requires
        store_keeps(install_executed(world, journal).0),
        install_executed(world, journal).1 is Ok,
        journal.journal.install_groups.len() <= usize::MAX,
    ensures
        journal.journal.install_groups.len() <= journal.journal.planned_group_ids.len(),
{
    crate::node_model_placement_outcomes::lemma_planned_covers(world, journal);
}

/// The calls that stop the committed groups of a journal and its service again, beside those that
/// change nothing.
pub open spec fn stopping_again(journal: NodeModelJournalView) -> Calls {
    |call: NodeModelCall|
        stops_of(journal.placement_group_ids)(call) || moves(
            call,
            journal.service_id,
            ModelServiceDesiredState::Stopped,
        )
}

pub(crate) proof fn stopped_again(world: NodeModelWorld, journal: VersionedNodeModelJournalView)
    ensures
        ({
            let (after, result) = intent_stopped(world, journal);
            let groups = journal.journal.placement_group_ids;
            &&& only(world, after, stopping_again(journal.journal))
            &&& result matches Ok(done) ==> {
                &&& done == journal
                &&& forall|k: int|
                    0 <= k < groups.len() ==> ends_at_rest(
                        after,
                        world.calls.len(),
                        #[trigger] groups[k],
                    )
                &&& ends_intending(
                    after,
                    world.calls.len(),
                    journal.journal.service_id,
                    ModelServiceDesiredState::Stopped,
                )
            }
        }),
{
    let groups = journal.journal.placement_group_ids;
    let service = journal.journal.service_id;
    let state = ModelServiceDesiredState::Stopped;
    let wide = stopping_again(journal.journal);
    let from = world.calls.len();
    every_stopped_reversed(world, groups, groups.len() as int);
    let a = all_stopped_reversed(world, groups, groups.len() as int);
    lemma_widened(world, a.0, stops_of(groups), wide);
    let name = "service.transition"@;
    step_intending(a.0, journal.journal, name, state, moves_to(service, state));
    let b = service_in_state(a.0, journal.journal, name, state);
    lemma_widened(a.0, b.0, moves_to(service, state), wide);
    join(world, a.0, b.0, wide);
    if a.1 is Ok && b.1 is Ok {
        assert forall|k: int| 0 <= k < groups.len() implies ends_at_rest(
            b.0,
            from,
            #[trigger] groups[k],
        ) by {
            assert(ends_at_rest(a.0, from, groups[k]));
            carry_at_rest(a.0, b.0, from, groups[k], moves_to(service, state));
        }
        lemma_intending_from(b.0, a.0.calls.len(), from, service, state);
    }
}

proof fn replaced_groups_stay_gone(
    asked: NodeModelWorld,
    released: NodeModelWorld,
    installed: NodeModelWorld,
    after: NodeModelWorld,
    from: nat,
    model: NodeModelJournalView,
    last: NodeModelJournalView,
    was_stopped: bool,
)
    requires
        from <= asked.calls.len(),
        forall|k: int|
            0 <= k < replaced_groups(model).len() ==> ends_gone(
                released,
                asked.calls.len(),
                #[trigger] replaced_groups(model)[k],
            ) && ends_unbound(
                released,
                asked.calls.len(),
                model.service_id,
                replaced_groups(model)[k],
            ),
        only(released, installed, placing_only(model.planned_group_ids)),
        if was_stopped {
            only(installed, after, stopping_again(last))
        } else {
            after == installed
        },
    ensures
        forall|k: int|
            0 <= k < replaced_groups(model).len() && !model.planned_group_ids.contains(
                #[trigger] replaced_groups(model)[k],
            ) ==> ends_gone(after, from, replaced_groups(model)[k]) && ends_unbound(
                after,
                from,
                model.service_id,
                replaced_groups(model)[k],
            ),
{
    let groups = replaced_groups(model);
    let service = model.service_id;
    assert forall|k: int|
        0 <= k < groups.len() && !model.planned_group_ids.contains(
            #[trigger] groups[k],
        ) implies ends_gone(after, from, groups[k]) && ends_unbound(
        after,
        from,
        service,
        groups[k],
    ) by {
        let start = asked.calls.len();
        let planning = placing_only(model.planned_group_ids);
        carry_gone(released, installed, start, groups[k], planning);
        carry_unbound(released, installed, start, service, groups[k], planning);
        if was_stopped {
            carry_gone(installed, after, start, groups[k], stopping_again(last));
            carry_unbound(installed, after, start, service, groups[k], stopping_again(last));
        }
        lemma_gone_from(after, start, from, groups[k]);
        lemma_unbound_from(after, start, from, service, groups[k]);
    }
}

proof fn rests_again(
    released: NodeModelWorld,
    installed: NodeModelWorld,
    after: NodeModelWorld,
    from: nat,
    model: NodeModelJournalView,
    last: VersionedNodeModelJournalView,
)
    requires
        from <= released.calls.len() <= installed.calls.len(),
        same_command(model, last.journal),
        model.install_groups.len() <= last.journal.placement_group_ids.len(),
        forall|k: int|
            0 <= k < model.install_groups.len() ==> (
            #[trigger] last.journal.placement_group_ids[k]) == model.planned_group_ids[k],
        forall|k: int|
            0 <= k < model.install_groups.len() ==> #[trigger] stands(
                installed,
                released.calls.len(),
                model,
                k,
            ),
        after == intent_stopped(installed, last).0,
        intent_stopped(installed, last).1 is Ok,
    ensures
        forall|k: int|
            0 <= k < model.install_groups.len() ==> #[trigger] stands_at_rest(
                after,
                from,
                model,
                k,
            ),
        ends_intending(after, from, model.service_id, ModelServiceDesiredState::Stopped),
{
    stopped_again(installed, last);
    let again = stopping_again(last.journal);
    let service = model.service_id;
    lemma_widened(installed, after, again, any_call());
    assert forall|k: int| 0 <= k < model.install_groups.len() implies #[trigger] stands_at_rest(
        after,
        from,
        model,
        k,
    ) by {
        let group = model.planned_group_ids[k];
        assert(stands(installed, released.calls.len(), model, k));
        assert(last.journal.placement_group_ids[k] == group);
        crate::node_model_placement_outcomes::carry_placed(
            installed,
            after,
            released.calls.len(),
            from,
            service,
            k as usize,
            group,
            model.install_groups[k].node_ids,
        );
        crate::node_model_traces::carry_bound(
            installed,
            after,
            released.calls.len(),
            service,
            group,
            again,
        );
        crate::node_model_placement_outcomes::lemma_bound_from(
            after,
            released.calls.len(),
            from,
            service,
            group,
        );
        lemma_at_rest_from(after, installed.calls.len(), from, group);
    }
    lemma_intending_from(
        after,
        installed.calls.len(),
        from,
        service,
        ModelServiceDesiredState::Stopped,
    );
}

// ---------------------------------------------------------------------------
// Updates
// ---------------------------------------------------------------------------

/// The calls that acquire runtimes: they change nothing, replace the journal or install a runtime.
pub open spec fn acquiring() -> Calls {
    |call: NodeModelCall| !call.mutates() || call is ReplaceJournal || call is InstallRuntime
}

/// Between two positions an available installation on the node is read.
pub open spec fn ready_between(world: NodeModelWorld, from: nat, to: nat, node_id: NodeId) -> bool {
    exists|at: int| from <= at < to && #[trigger] ready_at(world, at, node_id)
}

/// One call reads an available installation on the node.
pub open spec fn ready_at(world: NodeModelWorld, at: int, node_id: NodeId) -> bool {
    &&& world.calls[at] is Installation
    &&& (world.script.installation)(at as nat) matches Ok(Some(installation))
    &&& installation.node_id == node_id
    &&& installation.state == RuntimeInstallationState::Available
}

proof fn carry_ready(
    earlier: NodeModelWorld,
    later: NodeModelWorld,
    late: nat,
    early: nat,
    node_id: NodeId,
)
    requires
        ready_between(earlier, late, earlier.calls.len(), node_id),
        only(earlier, later, any_call()),
        early <= late,
    ensures
        ready_between(later, early, later.calls.len(), node_id),
{
    let at = choose|at: int|
        late <= at < earlier.calls.len() && #[trigger] ready_at(earlier, at, node_id);
    assert(later.calls[at] == earlier.calls[at]);
    assert(ready_at(later, at, node_id));
}

proof fn node_is_ready(
    world: NodeModelWorld,
    journal: VersionedNodeModelJournalView,
    group_index: usize,
    explicit: Option<Seq<char>>,
    node_id: NodeId,
)
    requires
        store_keeps(node_resolved(world, journal, group_index, explicit, node_id).0),
    ensures
        node_resolved(world, journal, group_index, explicit, node_id).1 is Ok ==> ready_between(
            node_resolved(world, journal, group_index, explicit, node_id).0,
            world.calls.len(),
            node_resolved(world, journal, group_index, explicit, node_id).0.calls.len(),
            node_id,
        ),
{
    let (after, resolved) = node_resolved(world, journal, group_index, explicit, node_id);
    crate::node_model_placement_outcomes::frame_node(
        world,
        journal,
        group_index,
        explicit,
        node_id,
        any_call(),
    );
    if resolved is Ok {
        crate::node_model_placement_outcomes::law_resolved_node_runs_the_selected_candidate(
            world,
            journal,
            group_index,
            explicit,
            node_id,
        );
        let at = after.calls.len() as int - 1;
        assert(after.calls[at] is Installation);
        assert(ready_at(after, at, node_id));
    }
}

proof fn nodes_are_ready(
    world: NodeModelWorld,
    journal: VersionedNodeModelJournalView,
    group_index: usize,
    group: NodeModelInstallGroupView,
    at: int,
    installations: Seq<RuntimeInstallationView>,
)
    requires
        store_keeps(nodes_resolved(world, journal, group_index, group, at, installations).0),
        0 <= at <= group.node_ids.len(),
    ensures
        ({
            let (after, resolved) = nodes_resolved(
                world,
                journal,
                group_index,
                group,
                at,
                installations,
            );
            resolved is Ok ==> forall|m: int|
                at <= m < group.node_ids.len() ==> ready_between(
                    after,
                    world.calls.len(),
                    after.calls.len(),
                    #[trigger] group.node_ids[m],
                )
        }),
    decreases group.node_ids.len() - at,
{
    let after = nodes_resolved(world, journal, group_index, group, at, installations).0;
    if at < group.node_ids.len() {
        let explicit = group.explicit_candidate_id;
        let node_id = group.node_ids[at];
        let a = node_resolved(world, journal, group_index, explicit, node_id);
        if let Ok(resolved) = a.1 {
            let more = installations.push(resolved.1);
            crate::node_model_placement_outcomes::frame_nodes(
                a.0,
                resolved.0,
                group_index,
                group,
                at + 1,
                more,
                any_call(),
            );
            crate::node_model_placement_outcomes::frame_node(
                world,
                journal,
                group_index,
                explicit,
                node_id,
                any_call(),
            );
            lemma_store_kept(a.0, after);
            node_is_ready(world, journal, group_index, explicit, node_id);
            nodes_are_ready(a.0, resolved.0, group_index, group, at + 1, more);
            let done = nodes_resolved(a.0, resolved.0, group_index, group, at + 1, more).1;
            if done is Ok {
                carry_ready(a.0, after, world.calls.len(), world.calls.len(), node_id);
                assert(only(after, after, any_call()));
                assert forall|m: int| at <= m < group.node_ids.len() implies ready_between(
                    after,
                    world.calls.len(),
                    after.calls.len(),
                    #[trigger] group.node_ids[m],
                ) by {
                    if m > at {
                        carry_ready(
                            after,
                            after,
                            a.0.calls.len(),
                            world.calls.len(),
                            group.node_ids[m],
                        );
                    }
                }
            }
        }
    }
}

/// Between two positions an available installation is read on every node of one group.
pub open spec fn group_ready(
    world: NodeModelWorld,
    from: nat,
    to: nat,
    group: NodeModelInstallGroupView,
) -> bool {
    forall|m: int|
        0 <= m < group.node_ids.len() ==> ready_between(world, from, to, #[trigger] group.node_ids[m])
}

proof fn carry_group_ready(
    earlier: NodeModelWorld,
    later: NodeModelWorld,
    late: nat,
    early: nat,
    group: NodeModelInstallGroupView,
)
    requires
        group_ready(earlier, late, earlier.calls.len(), group),
        only(earlier, later, any_call()),
        early <= late,
    ensures
        group_ready(later, early, later.calls.len(), group),
{
    assert forall|m: int| 0 <= m < group.node_ids.len() implies ready_between(
        later,
        early,
        later.calls.len(),
        #[trigger] group.node_ids[m],
    ) by {
        carry_ready(earlier, later, late, early, group.node_ids[m]);
    }
}

proof fn every_group_ready(
    world: NodeModelWorld,
    journal: VersionedNodeModelJournalView,
    at: int,
    count: int,
)
    requires
        store_keeps(updates_resolved(world, journal, at, count).0),
        0 <= at <= count <= journal.journal.install_groups.len() <= usize::MAX,
    ensures
        ({
            let (after, resolved) = updates_resolved(world, journal, at, count);
            &&& only(world, after, acquiring())
            &&& resolved matches Ok(done) ==> {
                &&& same_groups(journal.journal, done.journal)
                &&& forall|k: int|
                    at <= k < count ==> group_ready(
                        after,
                        world.calls.len(),
                        after.calls.len(),
                        #[trigger] journal.journal.install_groups[k],
                    )
            }
        }),
    decreases count - at,
{
    let (after, resolved) = updates_resolved(world, journal, at, count);
    if at < count {
        let index = at as usize;
        let group = journal.journal.install_groups[at];
        let a = group_resolved(world, journal, index);
        frame_installations(world, journal, index, acquiring());
        lemma_widened(world, a.0, acquiring(), any_call());
        if let Ok(ready) = a.1 {
            if group_runtime(ready.1) is Ok {
                frame_updates(a.0, ready.0, at + 1, count, any_call());
                lemma_store_kept(a.0, after);
                assert(cover_nodes(Seq::empty(), group.node_ids.take(0)));
                nodes_covered(world, journal, index, group, 0, Seq::empty());
                nodes_are_ready(world, journal, index, group, 0, Seq::empty());
                every_group_ready(a.0, ready.0, at + 1, count);
                join(world, a.0, after, acquiring());
                if let Ok(done) = resolved {
                    assert(group_ready(a.0, world.calls.len(), a.0.calls.len(), group));
                    carry_group_ready(a.0, after, world.calls.len(), world.calls.len(), group);
                    assert(only(after, after, any_call()));
                    assert forall|k: int| at <= k < count implies group_ready(
                        after,
                        world.calls.len(),
                        after.calls.len(),
                        #[trigger] journal.journal.install_groups[k],
                    ) by {
                        if k > at {
                            assert(ready.0.journal.install_groups[k]
                                == journal.journal.install_groups[k]);
                            carry_group_ready(
                                after,
                                after,
                                a.0.calls.len(),
                                world.calls.len(),
                                journal.journal.install_groups[k],
                            );
                        }
                    }
                }
            }
        }
    }
}

pub(crate) proof fn frame_updates(
    world: NodeModelWorld,
    journal: VersionedNodeModelJournalView,
    at: int,
    count: int,
    allowed: Calls,
)
    requires
        crate::node_model_placement_outcomes::admits_acquiring(allowed),
    ensures
        only(world, updates_resolved(world, journal, at, count).0, allowed),
    decreases count - at,
{
    if 0 <= at < count {
        frame_installations(world, journal, at as usize, allowed);
        let a = group_resolved(world, journal, at as usize);
        if let Ok(ready) = a.1 {
            frame_updates(a.0, ready.0, at + 1, count, allowed);
            join(world, a.0, updates_resolved(a.0, ready.0, at + 1, count).0, allowed);
        }
    }
}

proof fn frame_replacement(
    world: NodeModelWorld,
    journal: VersionedNodeModelJournalView,
)
    ensures
        only(world, replacement_executed(world, journal).0, any_call()),
{
    let after = replacement_executed(world, journal).0;
    let model = journal.journal;
    let a = redacted(world.service(model.service_id));
    every_released(a.0, model, 0);
    let b = all_retained_released(a.0, model, 0);
    lemma_widened(a.0, b.0, releases_of(replaced_groups(model)), any_call());
    join(world, a.0, b.0, any_call());
    frame_install(b.0, journal, any_call());
    let c = install_executed(b.0, journal);
    join(world, b.0, c.0, any_call());
    if let Ok(done) = c.1 {
        stopped_again(c.0, done);
        let d = intent_stopped(c.0, done);
        lemma_widened(c.0, d.0, stopping_again(done.journal), any_call());
        join(world, c.0, d.0, any_call());
    }
}

/// What happens to the groups of two journals of one command is the same.
proof fn lemma_replaced_alike(
    world: NodeModelWorld,
    from: nat,
    journal: NodeModelJournalView,
    alike: NodeModelJournalView,
    done: NodeModelJournalView,
)
    requires
        same_groups(journal, alike),
        replaced(world, from, alike, done),
    ensures
        replaced(world, from, journal, done),
{
    assert(replaced_groups(journal) =~= replaced_groups(alike));
    let count = journal.install_groups.len();
    if first_intent(world, from, journal.service_id) == Some(ModelServiceDesiredState::Stopped) {
        assert forall|k: int| 0 <= k < count implies #[trigger] stands_at_rest(
            world,
            from,
            journal,
            k,
        ) by {
            assert(stands_at_rest(world, from, alike, k));
        }
    } else {
        assert forall|k: int| 0 <= k < count implies #[trigger] stands(world, from, journal, k) by {
            assert(stands(world, from, alike, k));
        }
    }
}

/// An update that succeeded falls in two parts. Before the split runtimes are acquired, until an
/// available installation was read on every node of every group, and no group is touched. From the
/// split on the groups are replaced and the service keeps its intent.
pub proof fn law_update_acquires_then_replaces(
    world: NodeModelWorld,
    journal: VersionedNodeModelJournalView,
)
    requires
        store_keeps(update_executed(world, journal).0),
        journal.journal.install_groups.len() <= usize::MAX,
    ensures
        update_executed(world, journal).1 matches Ok(done) ==> exists|split: nat|
            #![trigger replaced(update_executed(world, journal).0, split, journal.journal, done.journal)]
            {
                let after = update_executed(world, journal).0;
                let groups = journal.journal.install_groups;
                &&& world.calls.len() <= split <= after.calls.len()
                &&& forall|i: int|
                    world.calls.len() <= i < split ==> acquiring()(#[trigger] after.calls[i])
                &&& forall|k: int|
                    0 <= k < groups.len() ==> group_ready(
                        after,
                        world.calls.len(),
                        split,
                        #[trigger] groups[k],
                    )
                &&& replaced(after, split, journal.journal, done.journal)
            },
{
    let (after, done) = update_executed(world, journal);
    let groups = journal.journal.install_groups;
    let from = world.calls.len();
    if let Ok(done) = done {
        let a = updates_resolved(world, journal, 0, groups.len() as int);
        let resolved = a.1->Ok_0;
        frame_replacement(a.0, resolved);
        lemma_store_kept(a.0, after);
        every_group_ready(world, journal, 0, groups.len() as int);
        law_replacement_keeps_the_intent(a.0, resolved);
        let split = a.0.calls.len();
        lemma_replaced_alike(after, split, journal.journal, resolved.journal, done.journal);
        assert forall|i: int| from <= i < split implies acquiring()(#[trigger] after.calls[i]) by {
            assert(after.calls[i] == a.0.calls[i]);
        }
        assert forall|k: int| 0 <= k < groups.len() implies group_ready(
            after,
            from,
            split,
            #[trigger] groups[k],
        ) by {
            let group = groups[k];
            assert(group_ready(a.0, from, split, group));
            assert forall|m: int| 0 <= m < group.node_ids.len() implies ready_between(
                after,
                from,
                split,
                #[trigger] group.node_ids[m],
            ) by {
                let node_id = group.node_ids[m];
                assert(ready_between(a.0, from, split, node_id));
                let at = choose|at: int| from <= at < split && #[trigger] ready_at(a.0, at, node_id);
                assert(after.calls[at] == a.0.calls[at]);
                assert(ready_at(after, at, node_id));
            }
        }
    }
}

// ---------------------------------------------------------------------------
// Rollbacks
// ---------------------------------------------------------------------------

/// One call reads the installation that a reused receipt of one node names: it is available on that
/// node and of the receipt's candidate.
pub open spec fn reads_retained(
    world: NodeModelWorld,
    at: int,
    journal: NodeModelJournalView,
    group_index: usize,
    node_id: NodeId,
    installation: RuntimeInstallationView,
) -> bool {
    exists|r: int|
        {
            &&& 0 <= r < journal.runtime_receipts.len()
            &&& (#[trigger] journal.runtime_receipts[r]).group_index == group_index
            &&& journal.runtime_receipts[r].node_id == node_id
            &&& journal.runtime_receipts[r].disposition == NodeModelRuntimeDisposition::Reused
            &&& journal.runtime_receipts[r].installation_id matches Some(installation_id)
            &&& world.calls[at] == (NodeModelCall::Installation { installation_id })
            &&& (world.script.installation)(at as nat) == Ok::<
                Option<RuntimeInstallationView>,
                crate::entity::RuntimeError,
            >(Some(installation))
            &&& installation.node_id == node_id
            &&& installation.state == RuntimeInstallationState::Available
            &&& installation.runtime.candidate_id == journal.runtime_receipts[r].candidate_id
        }
}

proof fn lemma_receipt_from(
    receipts: Seq<NodeModelRuntimeReceiptView>,
    group_index: usize,
    node_id: NodeId,
    at: int,
)
    requires
        0 <= at,
    ensures
        receipt_from(receipts, group_index, node_id, at) matches Some(receipt) ==> exists|r: int|
            0 <= r < receipts.len() && (#[trigger] receipts[r]) == receipt && receipt.group_index
                == group_index && receipt.node_id == node_id,
    decreases receipts.len() - at,
{
    if at < receipts.len() {
        lemma_receipt_from(receipts, group_index, node_id, at + 1);
        if receipts[at].group_index == group_index && receipts[at].node_id == node_id {
            assert(receipts[at] == receipts[at]);
        }
    }
}

proof fn retained_nodes_are_read(
    world: NodeModelWorld,
    journal: NodeModelJournalView,
    group_index: usize,
    group: NodeModelInstallGroupView,
    at: int,
    installations: Seq<RuntimeInstallationView>,
)
    requires
        0 <= at <= group.node_ids.len(),
        installations.len() == at,
    ensures
        ({
            let (after, read) = rollback_nodes_read(
                world,
                journal,
                group_index,
                group,
                at,
                installations,
            );
            &&& only(world, after, |call: NodeModelCall| call is Installation)
            &&& read matches Ok(read) ==> {
                &&& read.len() == group.node_ids.len()
                &&& installations =~= read.take(at)
                &&& after.calls.len() == world.calls.len() + group.node_ids.len() - at
                &&& forall|m: int|
                    at <= m < group.node_ids.len() ==> reads_retained(
                        after,
                        world.calls.len() + m - at,
                        journal,
                        group_index,
                        group.node_ids[m],
                        #[trigger] read[m],
                    )
            }
        }),
    decreases group.node_ids.len() - at,
{
    let reading = |call: NodeModelCall| call is Installation;
    let (after, read) = rollback_nodes_read(world, journal, group_index, group, at, installations);
    if at < group.node_ids.len() {
        let node_id = group.node_ids[at];
        let receipt = receipt_from(journal.runtime_receipts, group_index, node_id, 0);
        lemma_receipt_from(journal.runtime_receipts, group_index, node_id, 0);
        if let Some(receipt) = receipt {
            if let Some(installation_id) = receipt.installation_id {
                let a = required(from_runtime(world.installation(installation_id)));
                assert(only(world, a.0, reading));
                if let Ok(installation) = a.1 {
                    let more = installations.push(installation);
                    retained_nodes_are_read(a.0, journal, group_index, group, at + 1, more);
                    let b = rollback_nodes_read(a.0, journal, group_index, group, at + 1, more);
                    join(world, a.0, b.0, reading);
                    if let Ok(read) = read {
                        let r = choose|r: int|
                            0 <= r < journal.runtime_receipts.len() && (
                            #[trigger] journal.runtime_receipts[r]) == receipt;
                        let first = world.calls.len() as int;
                        assert(after.calls[first] == a.0.calls[first]);
                        assert(read.take(at + 1)[at] == installation);
                        assert(journal.runtime_receipts[r].group_index == group_index);
                        assert(reads_retained(
                            after,
                            first,
                            journal,
                            group_index,
                            node_id,
                            read[at],
                        ));
                        assert(installations =~= read.take(at)) by {
                            assert forall|i: int| 0 <= i < at implies installations[i]
                                == read[i] by {
                                assert(more[i] == read.take(at + 1)[i]);
                            }
                        }
                        assert forall|m: int| at <= m < group.node_ids.len() implies reads_retained(
                            after,
                            world.calls.len() + m - at,
                            journal,
                            group_index,
                            group.node_ids[m],
                            #[trigger] read[m],
                        ) by {
                            if m > at {
                                assert(a.0.calls.len() + m - (at + 1) == world.calls.len() + m
                                    - at);
                            }
                        }
                    }
                }
            }
        }
    }
}

/// A rollback group runs exactly the installations that its journal retained, node by node, and the
/// catalog is not consulted for them.
pub proof fn law_rollback_reads_retained_installations(
    world: NodeModelWorld,
    journal: NodeModelJournalView,
    group_index: usize,
)
    ensures
        ({
            let (after, read) = rollback_group_read(world, journal, group_index);
            let group = journal.install_groups[group_index as int];
            &&& only(world, after, |call: NodeModelCall| call is Installation)
            &&& read matches Ok(read) ==> {
                &&& group_index < journal.install_groups.len()
                &&& read.len() == group.node_ids.len()
                &&& forall|m: int|
                    0 <= m < group.node_ids.len() ==> reads_retained(
                        after,
                        world.calls.len() + m,
                        journal,
                        group_index,
                        group.node_ids[m],
                        #[trigger] read[m],
                    )
                &&& forall|m: int|
                    0 <= m < read.len() ==> (#[trigger] read[m]).runtime == read[0].runtime
            }
        }),
{
    if group_index < journal.install_groups.len() {
        let group = journal.install_groups[group_index as int];
        retained_nodes_are_read(world, journal, group_index, group, 0, Seq::empty());
        let (after, read) = rollback_group_read(world, journal, group_index);
        if let Ok(read) = read {
            assert forall|m: int| 0 <= m < group.node_ids.len() implies reads_retained(
                after,
                world.calls.len() + m,
                journal,
                group_index,
                group.node_ids[m],
                #[trigger] read[m],
            ) by {
                assert(world.calls.len() + m - 0 == world.calls.len() + m);
            }
        }
    }
}

pub(crate) proof fn every_rollback_read(world: NodeModelWorld, journal: NodeModelJournalView, at: int)
    requires
        0 <= at <= journal.install_groups.len() <= usize::MAX,
    ensures
        ({
            let (after, read) = rollbacks_read(world, journal, at);
            &&& only(world, after, |call: NodeModelCall| call is Installation)
            &&& read is Ok ==> forall|k: int|
                at <= k < journal.install_groups.len() ==> group_ready(
                    after,
                    world.calls.len(),
                    after.calls.len(),
                    #[trigger] journal.install_groups[k],
                )
        }),
    decreases journal.install_groups.len() - at,
{
    let reading = |call: NodeModelCall| call is Installation;
    let (after, result) = rollbacks_read(world, journal, at);
    if at < journal.install_groups.len() {
        let index = at as usize;
        let group = journal.install_groups[at];
        let a = rollback_group_read(world, journal, index);
        law_rollback_reads_retained_installations(world, journal, index);
        if let Ok(read) = a.1 {
            every_rollback_read(a.0, journal, at + 1);
            join(world, a.0, after, reading);
            lemma_widened(a.0, after, reading, any_call());
            assert(only(after, after, any_call()));
            assert(group_ready(a.0, world.calls.len(), a.0.calls.len(), group)) by {
                assert forall|m: int| 0 <= m < group.node_ids.len() implies ready_between(
                    a.0,
                    world.calls.len(),
                    a.0.calls.len(),
                    #[trigger] group.node_ids[m],
                ) by {
                    assert(reads_retained(
                        a.0,
                        world.calls.len() + m,
                        journal,
                        index,
                        group.node_ids[m],
                        read[m],
                    ));
                    retained_nodes_are_read(world, journal, index, group, 0, Seq::empty());
                    assert(ready_at(a.0, world.calls.len() + m, group.node_ids[m]));
                }
            }
            carry_group_ready(a.0, after, world.calls.len(), world.calls.len(), group);
            if result is Ok {
                assert forall|k: int| at <= k < journal.install_groups.len() implies group_ready(
                    after,
                    world.calls.len(),
                    after.calls.len(),
                    #[trigger] journal.install_groups[k],
                ) by {
                    if k > at {
                        carry_group_ready(
                            after,
                            after,
                            a.0.calls.len(),
                            world.calls.len(),
                            journal.install_groups[k],
                        );
                    }
                }
            }
        }
    }
}

/// A rollback that succeeded falls in two parts. Before the split it reads, on every node of every
/// group, the available installation that its journal retained, and does nothing else. From the
/// split on the groups are replaced and the service keeps its intent.
pub proof fn law_rollback_reads_then_replaces(
    world: NodeModelWorld,
    journal: VersionedNodeModelJournalView,
)
    requires
        store_keeps(rollback_executed(world, journal).0),
        journal.journal.install_groups.len() <= usize::MAX,
    ensures
        rollback_executed(world, journal).1 matches Ok(done) ==> exists|split: nat|
            #![trigger replaced(rollback_executed(world, journal).0, split, journal.journal, done.journal)]
            {
                let after = rollback_executed(world, journal).0;
                let groups = journal.journal.install_groups;
                &&& world.calls.len() <= split <= after.calls.len()
                &&& forall|i: int|
                    world.calls.len() <= i < split ==> (#[trigger] after.calls[i]) is Installation
                &&& forall|k: int|
                    0 <= k < groups.len() ==> group_ready(
                        after,
                        world.calls.len(),
                        split,
                        #[trigger] groups[k],
                    )
                &&& replaced(after, split, journal.journal, done.journal)
            },
{
    let (after, done) = rollback_executed(world, journal);
    let groups = journal.journal.install_groups;
    let from = world.calls.len();
    if let Ok(done) = done {
        let a = rollbacks_read(world, journal.journal, 0);
        frame_replacement(a.0, journal);
        every_rollback_read(world, journal.journal, 0);
        law_replacement_keeps_the_intent(a.0, journal);
        let split = a.0.calls.len();
        assert forall|i: int| from <= i < split implies (
        #[trigger] after.calls[i]) is Installation by {
            assert(after.calls[i] == a.0.calls[i]);
        }
        assert forall|k: int| 0 <= k < groups.len() implies group_ready(
            after,
            from,
            split,
            #[trigger] groups[k],
        ) by {
            let group = groups[k];
            assert(group_ready(a.0, from, split, group));
            assert forall|m: int| 0 <= m < group.node_ids.len() implies ready_between(
                after,
                from,
                split,
                #[trigger] group.node_ids[m],
            ) by {
                let node_id = group.node_ids[m];
                assert(ready_between(a.0, from, split, node_id));
                let at = choose|at: int| from <= at < split && #[trigger] ready_at(a.0, at, node_id);
                assert(after.calls[at] == a.0.calls[at]);
                assert(ready_at(after, at, node_id));
            }
        }
        assert(replaced(after, split, journal.journal, done.journal));
    }
}

} // verus!
