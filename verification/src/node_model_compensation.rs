//! The reversal of one failed model command.

use vstd::prelude::*;

use crate::entity::{
    ModelServiceDesiredState, PlacementAssignment, PlacementGroupState, PlacementRecord,
    PlacementRecordView, RuntimeInstallation, RuntimeInstallationState, RuntimeInstallationView,
};
use crate::identity::PlacementGroupId;
use crate::node_model_contract::{
    InitialGroupState, NodeModelAction, NodeModelError, NodeModelJournal, NodeModelJournalView,
    NodeModelRetainedGroup, NodeModelRetainedGroupView, NodeModelRetainedNode,
};
use crate::node_model_execution::{same_runtime, stage_or_reread, staged_or_reread};
use crate::node_model_groups::{
    created_retired, detach_from, ensure_attached, ensure_detached, ensure_group_running,
    ensure_group_running_or_recovered, ensure_group_stopped, ensure_service_state, from_placement,
    from_runtime, group_attached, group_detached, group_recovered, group_released, group_running,
    group_stopped, known_group, known_installation, redacted, release_group,
    remove_created_runtimes, required, completed, service_detached, service_in_state,
    NodeModelOrchestrationPorts, Step,
};
use crate::node_model_rules::{
    group_phase, group_phase_name, group_runtime, phase, phase_key, placement_record_matches,
    placement_request_checked, record_matches, require_group_runtime_identity,
    validate_placement_request,
};
use crate::node_model_world::NodeModelWorld;
use crate::sequence::{listed, views, Valued};

verus! {

// ---------------------------------------------------------------------------
// Retained groups
// ---------------------------------------------------------------------------

/// The retained installations from one position on, each on its node and available.
pub open spec fn retained_nodes_read(
    world: NodeModelWorld,
    nodes: Seq<NodeModelRetainedNode>,
    at: int,
    installations: Seq<RuntimeInstallationView>,
) -> Step<Seq<RuntimeInstallationView>>
    decreases nodes.len() - at,
{
    if at < 0 || at >= nodes.len() {
        (world, Ok(installations))
    } else {
        let (world, installation) = required(
            from_runtime(world.installation(nodes[at].installation_id)),
        );
        match installation {
            Err(error) => (world, Err(error)),
            Ok(installation) => if installation.node_id != nodes[at].node_id || installation.state
                != RuntimeInstallationState::Available {
                (world, Err(NodeModelError::RecoveryRequired))
            } else {
                retained_nodes_read(world, nodes, at + 1, installations.push(installation))
            },
        }
    }
}

/// Every installation that one retained group runs, all of one runtime.
pub open spec fn retained_read(
    world: NodeModelWorld,
    retained: NodeModelRetainedGroupView,
) -> Step<Seq<RuntimeInstallationView>> {
    same_runtime(retained_nodes_read(world, retained.nodes, 0, Seq::empty()))
}

/// Reads every retained installation and verifies its exact node and available state.
#[verifier::loop_isolation(false)]
pub fn retained_installations<P: NodeModelOrchestrationPorts>(
    ports: &mut P,
    retained: &NodeModelRetainedGroup,
) -> (installations: Result<Vec<RuntimeInstallation>, NodeModelError>)
    ensures
        (final(ports).world(), listed(installations)) == retained_read(
            old(ports).world(),
            retained@,
        ),
{
    let ghost start = ports.world();
    let ghost nodes = retained@.nodes;
    let mut installations: Vec<RuntimeInstallation> = Vec::new();
    let mut i: usize = 0;
    proof {
        assert(views(installations@) =~= Seq::<RuntimeInstallationView>::empty());
    }
    while i < retained.nodes.len()
        invariant
            i <= retained.nodes@.len(),
            retained_nodes_read(ports.world(), nodes, i as int, views(installations@))
                == retained_nodes_read(start, nodes, 0, Seq::empty()),
        decreases retained.nodes@.len() - i,
    {
        let ghost before = views(installations@);
        let node = retained.nodes[i];
        assert(nodes[i as int] == node);
        let installation = known_installation(ports, &node.installation_id)?;
        if installation.node_id != node.node_id || installation.state
            != RuntimeInstallationState::Available {
            return Err(NodeModelError::RecoveryRequired);
        }
        installations.push(installation);
        assert(views(installations@) =~= before.push(installation@));
        i += 1;
    }
    require_group_runtime_identity(&installations)?;
    Ok(installations)
}

/// One assignment of a record is among the retained ones.
pub open spec fn assignment_retained(
    nodes: Seq<NodeModelRetainedNode>,
    assignment: PlacementAssignment,
) -> bool {
    exists|i: int|
        0 <= i < nodes.len() && (#[trigger] nodes[i]).node_id == assignment.node_id
            && nodes[i].installation_id == assignment.runtime_installation_id
}

/// One retained assignment is among those of a record.
pub open spec fn retained_assigned(
    placements: Seq<PlacementAssignment>,
    node: NodeModelRetainedNode,
) -> bool {
    exists|i: int|
        0 <= i < placements.len() && (#[trigger] placements[i]).node_id == node.node_id
            && placements[i].runtime_installation_id == node.installation_id
}

/// A record that keeps exactly the retained assignments of its group.
pub open spec fn retained_kept(
    retained: NodeModelRetainedGroupView,
    record: PlacementRecordView,
) -> bool {
    &&& record.group.placement_group_id == retained.source_group_id
    &&& forall|i: int|
        0 <= i < record.placements.len() ==> assignment_retained(
            retained.nodes,
            #[trigger] record.placements[i],
        )
    &&& forall|i: int|
        0 <= i < retained.nodes.len() ==> retained_assigned(
            record.placements,
            #[trigger] retained.nodes[i],
        )
}

#[verifier::loop_isolation(false)]
fn is_assignment_retained(
    nodes: &Vec<NodeModelRetainedNode>,
    assignment: &PlacementAssignment,
) -> (retained: bool)
    ensures
        retained == assignment_retained(views(nodes@), *assignment),
{
    let ghost all = views(nodes@);
    let mut i: usize = 0;
    while i < nodes.len()
        invariant
            i <= nodes@.len(),
            forall|k: int|
                0 <= k < i ==> !((#[trigger] all[k]).node_id == assignment.node_id
                    && all[k].installation_id == assignment.runtime_installation_id),
        decreases nodes@.len() - i,
    {
        let node = nodes[i];
        assert(all[i as int] == node);
        if node.node_id == assignment.node_id && node.installation_id
            == assignment.runtime_installation_id {
            return true;
        }
        i += 1;
    }
    false
}

#[verifier::loop_isolation(false)]
fn is_retained_assigned(
    placements: &Vec<PlacementAssignment>,
    node: &NodeModelRetainedNode,
) -> (assigned: bool)
    ensures
        assigned == retained_assigned(views(placements@), *node),
{
    let ghost all = views(placements@);
    let mut i: usize = 0;
    while i < placements.len()
        invariant
            i <= placements@.len(),
            forall|k: int|
                0 <= k < i ==> !((#[trigger] all[k]).node_id == node.node_id
                    && all[k].runtime_installation_id == node.installation_id),
        decreases placements@.len() - i,
    {
        let placement = placements[i];
        assert(all[i as int] == placement);
        if placement.node_id == node.node_id && placement.runtime_installation_id
            == node.installation_id {
            return true;
        }
        i += 1;
    }
    false
}

#[verifier::loop_isolation(false)]
fn is_retained_kept(retained: &NodeModelRetainedGroup, record: &PlacementRecord) -> (kept: bool)
    ensures
        kept == retained_kept(retained@, record@),
{
    if record.group.placement_group_id != retained.source_group_id {
        return false;
    }
    let ghost placements = record@.placements;
    let ghost nodes = retained@.nodes;
    let mut i: usize = 0;
    while i < record.placements.len()
        invariant
            i <= record.placements@.len(),
            forall|k: int| 0 <= k < i ==> assignment_retained(nodes, #[trigger] placements[k]),
        decreases record.placements@.len() - i,
    {
        assert(placements[i as int] == record.placements@[i as int]);
        if !is_assignment_retained(&retained.nodes, &record.placements[i]) {
            return false;
        }
        i += 1;
    }
    let mut j: usize = 0;
    while j < retained.nodes.len()
        invariant
            j <= retained.nodes@.len(),
            forall|k: int| 0 <= k < j ==> retained_assigned(placements, #[trigger] nodes[k]),
        decreases retained.nodes@.len() - j,
    {
        assert(nodes[j as int] == retained.nodes@[j as int]);
        if !is_retained_assigned(&record.placements, &retained.nodes[j]) {
            return false;
        }
        j += 1;
    }
    true
}

/// A retained group that still exists must keep its assignments, and each must be available.
pub open spec fn retained_checked(
    world: NodeModelWorld,
    retained: NodeModelRetainedGroupView,
    record: PlacementRecordView,
) -> Step<()> {
    if retained_kept(retained, record) {
        completed(retained_read(world, retained))
    } else {
        (world, Err(NodeModelError::RecoveryRequired))
    }
}

/// Requires one retained source record to keep the exact persisted assignments.
pub fn validate_retained_record<P: NodeModelOrchestrationPorts>(
    ports: &mut P,
    retained: &NodeModelRetainedGroup,
    record: &PlacementRecord,
) -> (result: Result<(), NodeModelError>)
    ensures
        (final(ports).world(), result) == retained_checked(
            old(ports).world(),
            retained@,
            record@,
        ),
{
    if !is_retained_kept(retained, record) {
        return Err(NodeModelError::RecoveryRequired);
    }
    retained_installations(ports, retained)?;
    Ok(())
}

/// A restoration group that exists must match its request; otherwise it is staged.
pub open spec fn restoration_staged(
    world: NodeModelWorld,
    restoration: PlacementGroupId,
    request: crate::entity::PlacementRequestView,
) -> Step<()> {
    let (world, record) = from_placement(world.group_record(restoration));
    match record {
        Err(error) => (world, Err(error)),
        Ok(Some(record)) => if record_matches(record, request) {
            (world, Ok(()))
        } else {
            (world, Err(NodeModelError::RecoveryRequired))
        },
        Ok(None) => staged_or_reread(world, restoration, request),
    }
}

/// Resolves one deterministic restoration stage including ambiguous provider success.
pub fn resolve_restoration_group<P: NodeModelOrchestrationPorts>(
    ports: &mut P,
    restoration_group_id: &PlacementGroupId,
    request: crate::entity::PlacementRequest,
) -> (result: Result<(), NodeModelError>)
    ensures
        (final(ports).world(), result) == restoration_staged(
            old(ports).world(),
            *restoration_group_id,
            request@,
        ),
{
    match ports.record(restoration_group_id) {
        Err(error) => Err(NodeModelError::Placement(error)),
        Ok(Some(record)) => {
            if placement_record_matches(&record, &request) {
                Ok(())
            } else {
                Err(NodeModelError::RecoveryRequired)
            }
        },
        Ok(None) => stage_or_reread(ports, restoration_group_id, request),
    }
}

/// The group that stands for one retained group again: itself while it exists, and otherwise a
/// new group of the same runtime under the derived restoration identity.
pub open spec fn retained_rebuilt(
    world: NodeModelWorld,
    journal: NodeModelJournalView,
    group_index: int,
) -> Step<PlacementGroupId> {
    let retained = journal.retained_groups[group_index];
    let (world, source) = required(from_placement(world.group_record(retained.source_group_id)));
    match source {
        Err(error) => (world, Err(error)),
        Ok(source) => if source.group.state != PlacementGroupState::Removed {
            let (world, checked) = retained_checked(world, retained, source);
            match checked {
                Err(error) => (world, Err(error)),
                Ok(_) => (world, Ok(retained.source_group_id)),
            }
        } else {
            let (world, installations) = retained_read(world, retained);
            match installations {
                Err(error) => (world, Err(error)),
                Ok(installations) => match group_runtime(installations) {
                    Err(error) => (world, Err(error)),
                    Ok(runtime) => if source.group.runtime != runtime {
                        (world, Err(NodeModelError::RecoveryRequired))
                    } else {
                        retained_requested(world, journal, group_index, installations)
                    },
                },
            }
        },
    }
}

/// One restoration group is requested, checked and staged.
pub open spec fn retained_requested(
    world: NodeModelWorld,
    journal: NodeModelJournalView,
    group_index: int,
    installations: Seq<RuntimeInstallationView>,
) -> Step<PlacementGroupId> {
    let restoration = journal.retained_groups[group_index].restoration_group_id;
    let (world, request) = world.placement_request_for(
        journal.service_id,
        group_index as usize,
        restoration,
        installations,
    );
    match request {
        Err(error) => (world, Err(error)),
        Ok(request) => match placement_request_checked(
            request,
            restoration,
            journal.service_id,
            installations,
        ) {
            Err(error) => (world, Err(error)),
            Ok(_) => {
                let (world, staged) = restoration_staged(world, restoration, request);
                match staged {
                    Err(error) => (world, Err(error)),
                    Ok(_) => (world, Ok(restoration)),
                }
            },
        },
    }
}

fn rebuild_retained<P: NodeModelOrchestrationPorts>(
    ports: &mut P,
    journal: &NodeModelJournal,
    group_index: usize,
) -> (group_id: Result<PlacementGroupId, NodeModelError>)
    requires
        group_index < journal@.retained_groups.len(),
    ensures
        (final(ports).world(), group_id) == retained_rebuilt(
            old(ports).world(),
            journal@,
            group_index as int,
        ),
{
    let retained = &journal.retained_groups[group_index];
    assert(journal@.retained_groups[group_index as int] == retained@);
    let source = known_group(ports, &retained.source_group_id)?;
    if source.group.state != PlacementGroupState::Removed {
        validate_retained_record(ports, retained, &source)?;
        return Ok(retained.source_group_id);
    }
    let installations = retained_installations(ports, retained)?;
    let runtime = require_group_runtime_identity(&installations)?;
    if !source.group.runtime.same(&runtime) {
        return Err(NodeModelError::RecoveryRequired);
    }
    let request = ports.request(
        &journal.service_id,
        group_index,
        &retained.restoration_group_id,
        &installations,
    )?;
    validate_placement_request(
        &request,
        &retained.restoration_group_id,
        &journal.service_id,
        &installations,
    )?;
    resolve_restoration_group(ports, &retained.restoration_group_id, request)?;
    Ok(retained.restoration_group_id)
}

/// One group returns to its recorded state.
pub open spec fn group_resettled(
    world: NodeModelWorld,
    placement_group_id: PlacementGroupId,
    state: PlacementGroupState,
) -> Step<()> {
    match state {
        PlacementGroupState::Running => group_running(world, placement_group_id),
        PlacementGroupState::Staged => group_stopped(world, placement_group_id),
        PlacementGroupState::Stopped => group_stopped(world, placement_group_id),
        _ => (world, Err(NodeModelError::JournalCorrupt)),
    }
}

/// One retained group is rebuilt, bound to its service and brought to its recorded state.
pub open spec fn retained_restored(
    world: NodeModelWorld,
    journal: NodeModelJournalView,
    group_index: int,
) -> Step<()> {
    let retained = journal.retained_groups[group_index];
    let source = retained.source_group_id;
    let (world, rebuilt) = retained_rebuilt(world, journal, group_index);
    match rebuilt {
        Err(error) => (world, Err(error)),
        Ok(group) => {
            let (world, detached) = group_detached(
                world,
                journal,
                source,
                group_phase("retained."@, source, ".detach"@),
                source == group,
            );
            match detached {
                Err(error) => (world, Err(error)),
                Ok(_) => {
                    let (world, attached) = group_attached(
                        world,
                        journal,
                        group,
                        group_phase("retained."@, group, ".attach"@),
                    );
                    match attached {
                        Err(error) => (world, Err(error)),
                        Ok(_) => group_resettled(world, group, retained.initial_state),
                    }
                },
            }
        },
    }
}

fn restore_retained<P: NodeModelOrchestrationPorts>(
    ports: &mut P,
    journal: &NodeModelJournal,
    group_index: usize,
) -> (result: Result<(), NodeModelError>)
    requires
        group_index < journal@.retained_groups.len(),
    ensures
        (final(ports).world(), result) == retained_restored(
            old(ports).world(),
            journal@,
            group_index as int,
        ),
{
    let retained = &journal.retained_groups[group_index];
    assert(journal@.retained_groups[group_index as int] == retained@);
    let source = retained.source_group_id;
    let group_id = rebuild_retained(ports, journal, group_index)?;
    let detach_name = group_phase_name("retained.", &source, ".detach");
    ensure_detached(ports, journal, &source, detach_name.as_str(), source == group_id)?;
    let attach_name = group_phase_name("retained.", &group_id, ".attach");
    ensure_attached(ports, journal, &group_id, attach_name.as_str())?;
    match retained.initial_state {
        PlacementGroupState::Running => ensure_group_running(ports, &group_id),
        PlacementGroupState::Staged | PlacementGroupState::Stopped => {
            ensure_group_stopped(ports, &group_id)
        },
        _ => Err(NodeModelError::JournalCorrupt),
    }
}

/// Every retained group from one position on is restored, in order.
pub open spec fn all_retained_restored(
    world: NodeModelWorld,
    journal: NodeModelJournalView,
    at: int,
) -> Step<()>
    decreases journal.retained_groups.len() - at,
{
    if at < 0 || at >= journal.retained_groups.len() {
        (world, Ok(()))
    } else {
        let (world, restored) = retained_restored(world, journal, at);
        match restored {
            Err(error) => (world, Err(error)),
            Ok(_) => all_retained_restored(world, journal, at + 1),
        }
    }
}

/// Some retained group was running.
pub open spec fn any_retained_running(groups: Seq<NodeModelRetainedGroupView>) -> bool {
    exists|i: int|
        0 <= i < groups.len() && (#[trigger] groups[i]).initial_state
            == PlacementGroupState::Running
}

/// The intent of a service of which some group ran, or none did.
pub open spec fn intent(running: bool) -> ModelServiceDesiredState {
    if running {
        ModelServiceDesiredState::Running
    } else {
        ModelServiceDesiredState::Stopped
    }
}

/// Every retained group is restored, and then the service's intent.
pub open spec fn retained_groups_restored(
    world: NodeModelWorld,
    journal: NodeModelJournalView,
) -> Step<()> {
    let (world, restored) = all_retained_restored(world, journal, 0);
    match restored {
        Err(error) => (world, Err(error)),
        Ok(_) => service_in_state(
            world,
            journal,
            "service.transition"@,
            intent(any_retained_running(journal.retained_groups)),
        ),
    }
}

/// Restores every retained group in place or under its deterministic recovery identity.
#[verifier::loop_isolation(false)]
pub fn restore_retained_groups<P: NodeModelOrchestrationPorts>(
    ports: &mut P,
    journal: &NodeModelJournal,
) -> (result: Result<(), NodeModelError>)
    ensures
        (final(ports).world(), result) == retained_groups_restored(old(ports).world(), journal@),
{
    let ghost start = ports.world();
    let ghost groups = journal@.retained_groups;
    let mut running = false;
    let mut i: usize = 0;
    while i < journal.retained_groups.len()
        invariant
            i <= journal.retained_groups@.len(),
            all_retained_restored(ports.world(), journal@, i as int) == all_retained_restored(
                start,
                journal@,
                0,
            ),
            running == exists|k: int|
                0 <= k < i && (#[trigger] groups[k]).initial_state == PlacementGroupState::Running,
        decreases journal.retained_groups@.len() - i,
    {
        restore_retained(ports, journal, i)?;
        assert(groups[i as int].initial_state == journal.retained_groups@[i as int].initial_state);
        if journal.retained_groups[i].initial_state == PlacementGroupState::Running {
            running = true;
        }
        i += 1;
    }
    let desired_state = if running {
        ModelServiceDesiredState::Running
    } else {
        ModelServiceDesiredState::Stopped
    };
    ensure_service_state(ports, journal, desired_state)
}

// ---------------------------------------------------------------------------
// Replacements
// ---------------------------------------------------------------------------

/// One group that may exist is released.
pub open spec fn group_undone(
    world: NodeModelWorld,
    placement_group_id: PlacementGroupId,
) -> Step<()> {
    let (world, record) = from_placement(world.group_record(placement_group_id));
    match record {
        Err(error) => (world, Err(error)),
        Ok(None) => (world, Ok(())),
        Ok(Some(record)) => group_released(world, placement_group_id, record.group.state),
    }
}

fn undo_group<P: NodeModelOrchestrationPorts>(
    ports: &mut P,
    placement_group_id: &PlacementGroupId,
) -> (result: Result<(), NodeModelError>)
    ensures
        (final(ports).world(), result) == group_undone(old(ports).world(), *placement_group_id),
{
    match ports.record(placement_group_id) {
        Err(error) => Err(NodeModelError::Placement(error)),
        Ok(None) => Ok(()),
        Ok(Some(record)) => release_group(ports, placement_group_id, record.group.state),
    }
}

/// Every replacement group up to one position is released and detached, last first.
pub open spec fn replacements_removed(
    world: NodeModelWorld,
    journal: NodeModelJournalView,
    left: int,
) -> Step<()>
    decreases left,
{
    if left <= 0 || left > journal.placement_group_ids.len() {
        (world, Ok(()))
    } else {
        let group = journal.placement_group_ids[left - 1];
        let (world, undone) = group_undone(world, group);
        match undone {
            Err(error) => (world, Err(error)),
            Ok(_) => {
                let (world, detached) = group_detached(
                    world,
                    journal,
                    group,
                    group_phase("replacement."@, group, ".detach"@),
                    false,
                );
                match detached {
                    Err(error) => (world, Err(error)),
                    Ok(_) => replacements_removed(world, journal, left - 1),
                }
            },
        }
    }
}

/// Removes and detaches only groups created by the failed replacement operation.
#[verifier::loop_isolation(false)]
pub fn remove_replacement_groups<P: NodeModelOrchestrationPorts>(
    ports: &mut P,
    journal: &NodeModelJournal,
) -> (result: Result<(), NodeModelError>)
    ensures
        (final(ports).world(), result) == replacements_removed(
            old(ports).world(),
            journal@,
            journal@.placement_group_ids.len() as int,
        ),
{
    let ghost start = ports.world();
    let mut left: usize = journal.placement_group_ids.len();
    while left > 0
        invariant
            left <= journal.placement_group_ids@.len(),
            replacements_removed(ports.world(), journal@, left as int) == replacements_removed(
                start,
                journal@,
                journal@.placement_group_ids.len() as int,
            ),
        decreases left,
    {
        let group = journal.placement_group_ids[left - 1];
        undo_group(ports, &group)?;
        let name = group_phase_name("replacement.", &group, ".detach");
        ensure_detached(ports, journal, &group, name.as_str(), false)?;
        left -= 1;
    }
    Ok(())
}

/// Replacements are removed, retained groups restored, and created runtimes retired.
pub open spec fn replacement_compensated(
    world: NodeModelWorld,
    journal: NodeModelJournalView,
) -> Step<()> {
    let (world, removed) = replacements_removed(
        world,
        journal,
        journal.placement_group_ids.len() as int,
    );
    match removed {
        Err(error) => (world, Err(error)),
        Ok(_) => {
            let (world, restored) = retained_groups_restored(world, journal);
            match restored {
                Err(error) => (world, Err(error)),
                Ok(_) => created_retired(
                    world,
                    journal.runtime_receipts,
                    journal.runtime_receipts.len() as int,
                ),
            }
        },
    }
}

/// Removes failed replacements and reconstructs every retained current group exactly.
pub fn compensate_replacement<P: NodeModelOrchestrationPorts>(
    ports: &mut P,
    journal: &NodeModelJournal,
) -> (result: Result<(), NodeModelError>)
    ensures
        (final(ports).world(), result) == replacement_compensated(old(ports).world(), journal@),
{
    remove_replacement_groups(ports, journal)?;
    restore_retained_groups(ports, journal)?;
    remove_created_runtimes(ports, journal)
}

// ---------------------------------------------------------------------------
// Installations
// ---------------------------------------------------------------------------

/// One group is detached when the service can be read.
pub open spec fn group_detached_if_readable(
    world: NodeModelWorld,
    journal: NodeModelJournalView,
    placement_group_id: PlacementGroupId,
) -> Step<()> {
    let (world, service) = world.service(journal.service_id);
    match service {
        Err(_) => (world, Ok(())),
        Ok(service) => service_detached(
            world,
            journal,
            service,
            placement_group_id,
            "compensation.detach"@,
            false,
        ),
    }
}

/// Every staged group up to one position is released and detached, last first.
pub open spec fn staged_undone(
    world: NodeModelWorld,
    journal: NodeModelJournalView,
    left: int,
) -> Step<()>
    decreases left,
{
    if left <= 0 || left > journal.placement_group_ids.len() {
        (world, Ok(()))
    } else {
        let group = journal.placement_group_ids[left - 1];
        let (world, undone) = group_undone(world, group);
        match undone {
            Err(error) => (world, Err(error)),
            Ok(_) => {
                let (world, detached) = group_detached_if_readable(world, journal, group);
                match detached {
                    Err(error) => (world, Err(error)),
                    Ok(_) => staged_undone(world, journal, left - 1),
                }
            },
        }
    }
}

/// A service that can be read, owns no group and is not removed is removed.
pub open spec fn empty_service_removed(
    world: NodeModelWorld,
    journal: NodeModelJournalView,
) -> Step<()> {
    let (world, service) = world.service(journal.service_id);
    match service {
        Err(_) => (world, Ok(())),
        Ok(service) => if service.service.placement_group_ids.len() == 0
            && service.service.desired_state != ModelServiceDesiredState::Removed {
            let (world, now) = world.now();
            match now {
                Err(error) => (world, Err(error)),
                Ok(now) => completed(
                    redacted(
                        world.transition_service(
                            phase(journal, "compensation.remove_service"@),
                            journal.service_id,
                            ModelServiceDesiredState::Removed,
                            service.revision,
                            now,
                        ),
                    ),
                ),
            }
        } else {
            (world, Ok(()))
        },
    }
}

fn remove_empty_service<P: NodeModelOrchestrationPorts>(
    ports: &mut P,
    journal: &NodeModelJournal,
) -> (result: Result<(), NodeModelError>)
    ensures
        (final(ports).world(), result) == empty_service_removed(old(ports).world(), journal@),
{
    match ports.service(&journal.service_id) {
        Err(_) => Ok(()),
        Ok(service) => {
            if service.service.placement_group_ids.len() != 0 || service.service.desired_state
                == ModelServiceDesiredState::Removed {
                return Ok(());
            }
            let now = ports.now()?;
            let key = phase_key(journal, "compensation.remove_service");
            match ports.transition_service(
                key.as_str(),
                &journal.service_id,
                ModelServiceDesiredState::Removed,
                service.revision,
                now,
            ) {
                Ok(_) => Ok(()),
                Err(_) => Err(NodeModelError::StateUnavailable),
            }
        },
    }
}

/// Staged groups, then an empty service, then created runtimes are removed.
pub open spec fn install_compensated(
    world: NodeModelWorld,
    journal: NodeModelJournalView,
) -> Step<()> {
    let (world, undone) = staged_undone(world, journal, journal.placement_group_ids.len() as int);
    match undone {
        Err(error) => (world, Err(error)),
        Ok(_) => {
            let (world, removed) = empty_service_removed(world, journal);
            match removed {
                Err(error) => (world, Err(error)),
                Ok(_) => created_retired(
                    world,
                    journal.runtime_receipts,
                    journal.runtime_receipts.len() as int,
                ),
            }
        },
    }
}

/// Removes command-created groups and installations while preserving reused bytes.
#[verifier::loop_isolation(false)]
pub fn compensate_install<P: NodeModelOrchestrationPorts>(
    ports: &mut P,
    journal: &NodeModelJournal,
) -> (result: Result<(), NodeModelError>)
    ensures
        (final(ports).world(), result) == install_compensated(old(ports).world(), journal@),
{
    let ghost start = ports.world();
    let mut left: usize = journal.placement_group_ids.len();
    while left > 0
        invariant
            left <= journal.placement_group_ids@.len(),
            staged_undone(ports.world(), journal@, left as int) == staged_undone(
                start,
                journal@,
                journal@.placement_group_ids.len() as int,
            ),
        decreases left,
    {
        let group = journal.placement_group_ids[left - 1];
        undo_group(ports, &group)?;
        match ports.service(&journal.service_id) {
            Ok(service) => {
                detach_from(ports, journal, &service, &group, "compensation.detach", false)?;
            },
            Err(_) => {},
        }
        left -= 1;
    }
    remove_empty_service(ports, journal)?;
    remove_created_runtimes(ports, journal)
}

// ---------------------------------------------------------------------------
// Existing services
// ---------------------------------------------------------------------------

/// Every targeted group from one position on returns to its initial state, in order.
pub open spec fn initial_resettled(
    world: NodeModelWorld,
    states: Seq<InitialGroupState>,
    at: int,
) -> Step<()>
    decreases states.len() - at,
{
    if at < 0 || at >= states.len() {
        (world, Ok(()))
    } else {
        let (world, resettled) = match states[at].state {
            PlacementGroupState::Running => group_recovered(
                world,
                states[at].placement_group_id,
                false,
            ),
            PlacementGroupState::Staged => group_stopped(world, states[at].placement_group_id),
            PlacementGroupState::Stopped => group_stopped(world, states[at].placement_group_id),
            _ => (world, Err(NodeModelError::RecoveryRequired)),
        };
        match resettled {
            Err(error) => (world, Err(error)),
            Ok(_) => initial_resettled(world, states, at + 1),
        }
    }
}

/// Some targeted group was running.
pub open spec fn any_initial_running(states: Seq<InitialGroupState>) -> bool {
    exists|i: int|
        0 <= i < states.len() && (#[trigger] states[i]).state == PlacementGroupState::Running
}

/// Every targeted group returns to its initial state, and then the service's intent.
pub open spec fn initial_restored(
    world: NodeModelWorld,
    journal: NodeModelJournalView,
) -> Step<()> {
    let (world, resettled) = initial_resettled(world, journal.initial_group_states, 0);
    match resettled {
        Err(error) => (world, Err(error)),
        Ok(_) => service_in_state(
            world,
            journal,
            "service.transition"@,
            intent(any_initial_running(journal.initial_group_states)),
        ),
    }
}

/// Converges every targeted group back to its exact pre-command running or stopped state.
#[verifier::loop_isolation(false)]
pub fn restore_initial_groups<P: NodeModelOrchestrationPorts>(
    ports: &mut P,
    journal: &NodeModelJournal,
) -> (result: Result<(), NodeModelError>)
    ensures
        (final(ports).world(), result) == initial_restored(old(ports).world(), journal@),
{
    let ghost start = ports.world();
    let ghost states = journal@.initial_group_states;
    let mut running = false;
    let mut i: usize = 0;
    while i < journal.initial_group_states.len()
        invariant
            i <= journal.initial_group_states@.len(),
            initial_resettled(ports.world(), states, i as int) == initial_resettled(
                start,
                states,
                0,
            ),
            running == exists|k: int|
                0 <= k < i && (#[trigger] states[k]).state == PlacementGroupState::Running,
        decreases journal.initial_group_states@.len() - i,
    {
        let entry = journal.initial_group_states[i];
        assert(states[i as int] == entry);
        match entry.state {
            PlacementGroupState::Running => {
                ensure_group_running_or_recovered(ports, &entry.placement_group_id, false)?;
                running = true;
            },
            PlacementGroupState::Staged | PlacementGroupState::Stopped => {
                ensure_group_stopped(ports, &entry.placement_group_id)?;
            },
            _ => {
                return Err(NodeModelError::RecoveryRequired);
            },
        }
        i += 1;
    }
    let desired_state = if running {
        ModelServiceDesiredState::Running
    } else {
        ModelServiceDesiredState::Stopped
    };
    ensure_service_state(ports, journal, desired_state)
}

/// The reversal that one command's action asks for; a removal is never reversed.
pub open spec fn compensated(world: NodeModelWorld, journal: NodeModelJournalView) -> Step<()> {
    match journal.action {
        NodeModelAction::Install => install_compensated(world, journal),
        NodeModelAction::Update => replacement_compensated(world, journal),
        NodeModelAction::Rollback => replacement_compensated(world, journal),
        NodeModelAction::Remove => (world, Err(NodeModelError::RecoveryRequired)),
        _ => initial_restored(world, journal),
    }
}

/// Restores initial state or reverses install receipts in exact reverse ownership order.
pub fn compensate<P: NodeModelOrchestrationPorts>(
    ports: &mut P,
    journal: &NodeModelJournal,
) -> (result: Result<(), NodeModelError>)
    ensures
        (final(ports).world(), result) == compensated(old(ports).world(), journal@),
{
    match journal.action {
        NodeModelAction::Install => compensate_install(ports, journal),
        NodeModelAction::Update | NodeModelAction::Rollback => {
            compensate_replacement(ports, journal)
        },
        NodeModelAction::Pause | NodeModelAction::Resume | NodeModelAction::Restart
        | NodeModelAction::Recover => restore_initial_groups(ports, journal),
        NodeModelAction::Remove => Err(NodeModelError::RecoveryRequired),
    }
}

} // verus!
