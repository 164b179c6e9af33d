//! Group, service and runtime steps that every model command is built from.

use vstd::prelude::*;

use crate::database::NodeManagerError;
use crate::entity::{
    ModelServiceDesiredState, PlacementError, PlacementGroupState, PlacementRecord,
    PlacementRecordView, RuntimeError, RuntimeInstallation, RuntimeInstallationState,
    RuntimeInstallationView,
};
use crate::identity::{
    contains_id, ModelServiceId, OperationId, PlacementGroupId, RuntimeInstallationId,
};
use crate::node_model_contract::{
    NodeModelError, NodeModelJournal, NodeModelJournalView, NodeModelRemovalRetention,
    NodeModelRuntimeDisposition, NodeModelRuntimeReceiptView, VersionedNodeModelOperation,
    VersionedNodeModelService, VersionedNodeModelServiceView,
};
use crate::node_model_rules::{phase, phase_key};
use crate::node_model_world::{
    NodeModelClock, NodeModelHardwareProvider, NodeModelJournalStore, NodeModelPlacementPort,
    NodeModelPlacementRequestProvider, NodeModelRuntimePort, NodeModelStatePort, NodeModelWorld,
};
use crate::sequence::{found, outcome, views};

verus! {

/// What one step of a command leaves: the world after its calls, and its outcome.
pub type Step<T> = (NodeModelWorld, Result<T, NodeModelError>);

/// Every port that model orchestration needs.
pub trait NodeModelOrchestrationPorts: NodeModelJournalStore
    + NodeModelStatePort
    + NodeModelRuntimePort
    + NodeModelPlacementPort
    + NodeModelPlacementRequestProvider
    + NodeModelHardwareProvider
    + NodeModelClock {

}

/// A state reply whose failure is redacted.
pub open spec fn redacted<T>(step: (NodeModelWorld, Result<T, NodeManagerError>)) -> Step<T> {
    (
        step.0,
        match step.1 {
            Ok(value) => Ok(value),
            Err(_) => Err(NodeModelError::StateUnavailable),
        },
    )
}

/// A runtime reply whose failure is preserved.
pub open spec fn from_runtime<T>(step: (NodeModelWorld, Result<T, RuntimeError>)) -> Step<T> {
    (
        step.0,
        match step.1 {
            Ok(value) => Ok(value),
            Err(error) => Err(NodeModelError::Runtime(error)),
        },
    )
}

/// A placement reply whose failure is preserved.
pub open spec fn from_placement<T>(step: (NodeModelWorld, Result<T, PlacementError>)) -> Step<T> {
    (
        step.0,
        match step.1 {
            Ok(value) => Ok(value),
            Err(error) => Err(NodeModelError::Placement(error)),
        },
    )
}

/// A step whose success is not needed.
pub open spec fn completed<T>(step: Step<T>) -> Step<()> {
    (
        step.0,
        match step.1 {
            Ok(_) => Ok(()),
            Err(error) => Err(error),
        },
    )
}

/// A lookup that must find something.
pub open spec fn required<T>(step: Step<Option<T>>) -> Step<T> {
    (
        step.0,
        match step.1 {
            Ok(Some(value)) => Ok(value),
            Ok(None) => Err(NodeModelError::RecoveryRequired),
            Err(error) => Err(error),
        },
    )
}

/// Returns one exact service.
pub fn known_service<P: NodeModelOrchestrationPorts>(
    ports: &mut P,
    service_id: &ModelServiceId,
) -> (service: Result<VersionedNodeModelService, NodeModelError>)
    ensures
        (final(ports).world(), outcome(service)) == redacted(
            old(ports).world().service(*service_id),
        ),
{
    match ports.service(service_id) {
        Ok(service) => Ok(service),
        Err(_) => Err(NodeModelError::StateUnavailable),
    }
}

/// Returns one exact operation when it exists.
pub fn known_operation<P: NodeModelOrchestrationPorts>(
    ports: &mut P,
    operation_id: &OperationId,
) -> (operation: Result<Option<VersionedNodeModelOperation>, NodeModelError>)
    ensures
        (final(ports).world(), found(operation)) == redacted(
            old(ports).world().operation(*operation_id),
        ),
{
    match ports.operation(operation_id) {
        Ok(operation) => Ok(operation),
        Err(_) => Err(NodeModelError::StateUnavailable),
    }
}

/// Returns one group aggregate that must exist.
pub fn known_group<P: NodeModelOrchestrationPorts>(
    ports: &mut P,
    placement_group_id: &PlacementGroupId,
) -> (record: Result<PlacementRecord, NodeModelError>)
    ensures
        (final(ports).world(), outcome(record)) == required(
            from_placement(old(ports).world().group_record(*placement_group_id)),
        ),
{
    match ports.record(placement_group_id) {
        Ok(Some(record)) => Ok(record),
        Ok(None) => Err(NodeModelError::RecoveryRequired),
        Err(error) => Err(NodeModelError::Placement(error)),
    }
}

/// Returns one runtime installation when it exists.
pub fn listed_installation<P: NodeModelOrchestrationPorts>(
    ports: &mut P,
    installation_id: &RuntimeInstallationId,
) -> (installation: Result<Option<RuntimeInstallation>, NodeModelError>)
    ensures
        (final(ports).world(), found(installation)) == from_runtime(
            old(ports).world().installation(*installation_id),
        ),
{
    match ports.installation(installation_id) {
        Ok(installation) => Ok(installation),
        Err(error) => Err(NodeModelError::Runtime(error)),
    }
}

/// Returns one runtime installation that must exist.
pub fn known_installation<P: NodeModelOrchestrationPorts>(
    ports: &mut P,
    installation_id: &RuntimeInstallationId,
) -> (installation: Result<RuntimeInstallation, NodeModelError>)
    ensures
        (final(ports).world(), outcome(installation)) == required(
            from_runtime(old(ports).world().installation(*installation_id)),
        ),
{
    match ports.installation(installation_id) {
        Ok(Some(installation)) => Ok(installation),
        Ok(None) => Err(NodeModelError::RecoveryRequired),
        Err(error) => Err(NodeModelError::Runtime(error)),
    }
}

// ---------------------------------------------------------------------------
// Group lifecycle
// ---------------------------------------------------------------------------

/// A lifecycle reply that failed counts as success when the group is then observed in the wanted
/// state.
pub open spec fn settled(
    world: NodeModelWorld,
    reply: Result<PlacementRecordView, PlacementError>,
    placement_group_id: PlacementGroupId,
    wanted: PlacementGroupState,
) -> Step<()> {
    match reply {
        Ok(_) => (world, Ok(())),
        Err(error) => {
            let (world, observed) = world.group_record(placement_group_id);
            match observed {
                Err(failure) => (world, Err(NodeModelError::Placement(failure))),
                Ok(None) => (world, Err(NodeModelError::Placement(error))),
                Ok(Some(record)) => if record.group.state == wanted {
                    (world, Ok(()))
                } else {
                    (world, Err(NodeModelError::Placement(error)))
                },
            }
        },
    }
}

fn settle<P: NodeModelOrchestrationPorts>(
    ports: &mut P,
    reply: Result<PlacementRecord, PlacementError>,
    placement_group_id: &PlacementGroupId,
    wanted: PlacementGroupState,
) -> (result: Result<(), NodeModelError>)
    ensures
        (final(ports).world(), result) == settled(
            old(ports).world(),
            outcome(reply),
            *placement_group_id,
            wanted,
        ),
{
    match reply {
        Ok(_) => Ok(()),
        Err(error) => match ports.record(placement_group_id) {
            Err(failure) => Err(NodeModelError::Placement(failure)),
            Ok(None) => Err(NodeModelError::Placement(error)),
            Ok(Some(record)) => {
                if record.group.state == wanted {
                    Ok(())
                } else {
                    Err(NodeModelError::Placement(error))
                }
            },
        },
    }
}

/// One group is running, or is started.
pub open spec fn group_running(
    world: NodeModelWorld,
    placement_group_id: PlacementGroupId,
) -> Step<()> {
    let (world, record) = required(from_placement(world.group_record(placement_group_id)));
    match record {
        Err(error) => (world, Err(error)),
        Ok(record) => if record.group.state == PlacementGroupState::Running {
            (world, Ok(()))
        } else {
            let (world, reply) = world.start_group(placement_group_id);
            settled(world, reply, placement_group_id, PlacementGroupState::Running)
        },
    }
}

/// Starts one group or accepts an authoritative running reread after ambiguous failure.
pub fn ensure_group_running<P: NodeModelOrchestrationPorts>(
    ports: &mut P,
    placement_group_id: &PlacementGroupId,
) -> (result: Result<(), NodeModelError>)
    ensures
        (final(ports).world(), result) == group_running(old(ports).world(), *placement_group_id),
{
    let record = known_group(ports, placement_group_id)?;
    if record.group.state == PlacementGroupState::Running {
        return Ok(());
    }
    let reply = ports.start(placement_group_id);
    settle(ports, reply, placement_group_id, PlacementGroupState::Running)
}

/// One group is stopped or removed, or is stopped.
pub open spec fn group_stopped(
    world: NodeModelWorld,
    placement_group_id: PlacementGroupId,
) -> Step<()> {
    let (world, record) = required(from_placement(world.group_record(placement_group_id)));
    match record {
        Err(error) => (world, Err(error)),
        Ok(record) => if record.group.state == PlacementGroupState::Stopped || record.group.state
            == PlacementGroupState::Removed {
            (world, Ok(()))
        } else {
            let (world, reply) = world.stop_group(placement_group_id);
            settled(world, reply, placement_group_id, PlacementGroupState::Stopped)
        },
    }
}

/// Stops one group or accepts an authoritative stopped reread after ambiguous failure.
pub fn ensure_group_stopped<P: NodeModelOrchestrationPorts>(
    ports: &mut P,
    placement_group_id: &PlacementGroupId,
) -> (result: Result<(), NodeModelError>)
    ensures
        (final(ports).world(), result) == group_stopped(old(ports).world(), *placement_group_id),
{
    let record = known_group(ports, placement_group_id)?;
    if matches!(record.group.state, PlacementGroupState::Stopped | PlacementGroupState::Removed) {
        return Ok(());
    }
    let reply = ports.stop(placement_group_id);
    settle(ports, reply, placement_group_id, PlacementGroupState::Stopped)
}

/// Group states that keep resources without running.
pub open spec fn at_rest(state: PlacementGroupState) -> bool {
    state == PlacementGroupState::Staged || state == PlacementGroupState::Stopped
}

/// One group is running, is started from rest, or is recovered from any other state.
pub open spec fn group_recovered(
    world: NodeModelWorld,
    placement_group_id: PlacementGroupId,
    acknowledge_protection_trips: bool,
) -> Step<()> {
    let (world, record) = required(from_placement(world.group_record(placement_group_id)));
    match record {
        Err(error) => (world, Err(error)),
        Ok(record) => if record.group.state == PlacementGroupState::Running {
            (world, Ok(()))
        } else {
            let (world, reply) = if at_rest(record.group.state) {
                world.start_group(placement_group_id)
            } else {
                world.recover_group(placement_group_id, acknowledge_protection_trips)
            };
            settled(world, reply, placement_group_id, PlacementGroupState::Running)
        },
    }
}

/// Starts or recovers one group according to its authoritative current state.
pub fn ensure_group_running_or_recovered<P: NodeModelOrchestrationPorts>(
    ports: &mut P,
    placement_group_id: &PlacementGroupId,
    acknowledge_protection_trips: bool,
) -> (result: Result<(), NodeModelError>)
    ensures
        (final(ports).world(), result) == group_recovered(
            old(ports).world(),
            *placement_group_id,
            acknowledge_protection_trips,
        ),
{
    let record = known_group(ports, placement_group_id)?;
    if record.group.state == PlacementGroupState::Running {
        return Ok(());
    }
    let reply = if matches!(
        record.group.state,
        PlacementGroupState::Staged | PlacementGroupState::Stopped
    ) {
        ports.start(placement_group_id)
    } else {
        ports.recover(placement_group_id, acknowledge_protection_trips)
    };
    settle(ports, reply, placement_group_id, PlacementGroupState::Running)
}

/// Every group from one position on is stopped, in order.
pub open spec fn all_stopped(
    world: NodeModelWorld,
    groups: Seq<PlacementGroupId>,
    at: int,
) -> Step<()>
    decreases groups.len() - at,
{
    if at < 0 || at >= groups.len() {
        (world, Ok(()))
    } else {
        let (world, result) = group_stopped(world, groups[at]);
        match result {
            Err(error) => (world, Err(error)),
            Ok(_) => all_stopped(world, groups, at + 1),
        }
    }
}

/// Stops every group in order.
#[verifier::loop_isolation(false)]
pub fn stop_all<P: NodeModelOrchestrationPorts>(
    ports: &mut P,
    groups: &Vec<PlacementGroupId>,
) -> (result: Result<(), NodeModelError>)
    ensures
        (final(ports).world(), result) == all_stopped(old(ports).world(), groups@, 0),
{
    let ghost start = ports.world();
    let mut i: usize = 0;
    while i < groups.len()
        invariant
            i <= groups@.len(),
            all_stopped(ports.world(), groups@, i as int) == all_stopped(start, groups@, 0),
        decreases groups@.len() - i,
    {
        ensure_group_stopped(ports, &groups[i])?;
        i += 1;
    }
    Ok(())
}

/// Every group from one position on is stopped, last first.
pub open spec fn all_stopped_reversed(
    world: NodeModelWorld,
    groups: Seq<PlacementGroupId>,
    left: int,
) -> Step<()>
    decreases left,
{
    if left <= 0 || left > groups.len() {
        (world, Ok(()))
    } else {
        let (world, result) = group_stopped(world, groups[left - 1]);
        match result {
            Err(error) => (world, Err(error)),
            Ok(_) => all_stopped_reversed(world, groups, left - 1),
        }
    }
}

/// Stops every group, last first.
#[verifier::loop_isolation(false)]
pub fn stop_all_reversed<P: NodeModelOrchestrationPorts>(
    ports: &mut P,
    groups: &Vec<PlacementGroupId>,
) -> (result: Result<(), NodeModelError>)
    ensures
        (final(ports).world(), result) == all_stopped_reversed(
            old(ports).world(),
            groups@,
            groups@.len() as int,
        ),
{
    let ghost start = ports.world();
    let mut left: usize = groups.len();
    while left > 0
        invariant
            left <= groups@.len(),
            all_stopped_reversed(ports.world(), groups@, left as int) == all_stopped_reversed(
                start,
                groups@,
                groups@.len() as int,
            ),
        decreases left,
    {
        ensure_group_stopped(ports, &groups[left - 1])?;
        left -= 1;
    }
    Ok(())
}

/// Every group from one position on is running or recovered, in order.
pub open spec fn all_recovered(
    world: NodeModelWorld,
    groups: Seq<PlacementGroupId>,
    acknowledge_protection_trips: bool,
    at: int,
) -> Step<()>
    decreases groups.len() - at,
{
    if at < 0 || at >= groups.len() {
        (world, Ok(()))
    } else {
        let (world, result) = group_recovered(world, groups[at], acknowledge_protection_trips);
        match result {
            Err(error) => (world, Err(error)),
            Ok(_) => all_recovered(world, groups, acknowledge_protection_trips, at + 1),
        }
    }
}

/// Starts or recovers every group in order.
#[verifier::loop_isolation(false)]
pub fn recover_all<P: NodeModelOrchestrationPorts>(
    ports: &mut P,
    groups: &Vec<PlacementGroupId>,
    acknowledge_protection_trips: bool,
) -> (result: Result<(), NodeModelError>)
    ensures
        (final(ports).world(), result) == all_recovered(
            old(ports).world(),
            groups@,
            acknowledge_protection_trips,
            0,
        ),
{
    let ghost start = ports.world();
    let mut i: usize = 0;
    while i < groups.len()
        invariant
            i <= groups@.len(),
            all_recovered(ports.world(), groups@, acknowledge_protection_trips, i as int)
                == all_recovered(start, groups@, acknowledge_protection_trips, 0),
        decreases groups@.len() - i,
    {
        ensure_group_running_or_recovered(ports, &groups[i], acknowledge_protection_trips)?;
        i += 1;
    }
    Ok(())
}

/// One group is removed: at once from rest, after a stop from any other state, not at all when
/// it is already removed.
pub open spec fn group_released(
    world: NodeModelWorld,
    placement_group_id: PlacementGroupId,
    state: PlacementGroupState,
) -> Step<()> {
    if state == PlacementGroupState::Removed {
        (world, Ok(()))
    } else {
        let (world, rested) = if at_rest(state) {
            (world, Ok(()))
        } else {
            group_stopped(world, placement_group_id)
        };
        match rested {
            Err(error) => (world, Err(error)),
            Ok(_) => completed(from_placement(world.remove_group(placement_group_id))),
        }
    }
}

/// Releases one group that was observed in the given state.
pub fn release_group<P: NodeModelOrchestrationPorts>(
    ports: &mut P,
    placement_group_id: &PlacementGroupId,
    state: PlacementGroupState,
) -> (result: Result<(), NodeModelError>)
    ensures
        (final(ports).world(), result) == group_released(
            old(ports).world(),
            *placement_group_id,
            state,
        ),
{
    if state == PlacementGroupState::Removed {
        return Ok(());
    }
    if !matches!(state, PlacementGroupState::Staged | PlacementGroupState::Stopped) {
        ensure_group_stopped(ports, placement_group_id)?;
    }
    match NodeModelPlacementPort::remove(ports, placement_group_id) {
        Ok(_) => Ok(()),
        Err(error) => Err(NodeModelError::Placement(error)),
    }
}

// ---------------------------------------------------------------------------
// Service bindings
// ---------------------------------------------------------------------------

/// The service of one command is in the desired state, or is moved there.
pub open spec fn service_in_state(
    world: NodeModelWorld,
    journal: NodeModelJournalView,
    name: Seq<char>,
    desired_state: ModelServiceDesiredState,
) -> Step<()> {
    let (world, service) = redacted(world.service(journal.service_id));
    match service {
        Err(error) => (world, Err(error)),
        Ok(service) => if service.service.desired_state == desired_state {
            (world, Ok(()))
        } else {
            let (world, now) = world.now();
            match now {
                Err(error) => (world, Err(error)),
                Ok(now) => completed(
                    redacted(
                        world.transition_service(
                            phase(journal, name),
                            journal.service_id,
                            desired_state,
                            service.revision,
                            now,
                        ),
                    ),
                ),
            }
        },
    }
}

/// Moves the service of one command to the desired state in a named phase.
pub fn move_service<P: NodeModelOrchestrationPorts>(
    ports: &mut P,
    journal: &NodeModelJournal,
    name: &str,
    desired_state: ModelServiceDesiredState,
) -> (result: Result<(), NodeModelError>)
    ensures
        (final(ports).world(), result) == service_in_state(
            old(ports).world(),
            journal@,
            name@,
            desired_state,
        ),
{
    let service = known_service(ports, &journal.service_id)?;
    if service.service.desired_state == desired_state {
        return Ok(());
    }
    let now = ports.now()?;
    let key = phase_key(journal, name);
    match ports.transition_service(
        key.as_str(),
        &journal.service_id,
        desired_state,
        service.revision,
        now,
    ) {
        Ok(_) => Ok(()),
        Err(_) => Err(NodeModelError::StateUnavailable),
    }
}

/// Applies one service state only after every group lifecycle has completed.
pub fn ensure_service_state<P: NodeModelOrchestrationPorts>(
    ports: &mut P,
    journal: &NodeModelJournal,
    desired_state: ModelServiceDesiredState,
) -> (result: Result<(), NodeModelError>)
    ensures
        (final(ports).world(), result) == service_in_state(
            old(ports).world(),
            journal@,
            "service.transition"@,
            desired_state,
        ),
{
    move_service(ports, journal, "service.transition", desired_state)
}

/// One group belongs to the service of one command, or is attached.
pub open spec fn group_attached(
    world: NodeModelWorld,
    journal: NodeModelJournalView,
    placement_group_id: PlacementGroupId,
    name: Seq<char>,
) -> Step<()> {
    let (world, service) = redacted(world.service(journal.service_id));
    match service {
        Err(error) => (world, Err(error)),
        Ok(service) => if service.service.placement_group_ids.contains(placement_group_id) {
            (world, Ok(()))
        } else {
            let (world, now) = world.now();
            match now {
                Err(error) => (world, Err(error)),
                Ok(now) => completed(
                    redacted(
                        world.attach_group(
                            phase(journal, name),
                            journal.service_id,
                            placement_group_id,
                            service.revision,
                            now,
                        ),
                    ),
                ),
            }
        },
    }
}

/// Attaches one group to the service of one command exactly once.
pub fn ensure_attached<P: NodeModelOrchestrationPorts>(
    ports: &mut P,
    journal: &NodeModelJournal,
    placement_group_id: &PlacementGroupId,
    name: &str,
) -> (result: Result<(), NodeModelError>)
    ensures
        (final(ports).world(), result) == group_attached(
            old(ports).world(),
            journal@,
            *placement_group_id,
            name@,
        ),
{
    let service = known_service(ports, &journal.service_id)?;
    if contains_id(&service.service.placement_group_ids, placement_group_id) {
        return Ok(());
    }
    let now = ports.now()?;
    let key = phase_key(journal, name);
    match ports.attach_group(
        key.as_str(),
        &journal.service_id,
        *placement_group_id,
        service.revision,
        now,
    ) {
        Ok(_) => Ok(()),
        Err(_) => Err(NodeModelError::StateUnavailable),
    }
}

/// One group that belongs to a known service is detached, unless it shall stay.
pub open spec fn service_detached(
    world: NodeModelWorld,
    journal: NodeModelJournalView,
    service: VersionedNodeModelServiceView,
    placement_group_id: PlacementGroupId,
    name: Seq<char>,
    stays: bool,
) -> Step<()> {
    if stays || !service.service.placement_group_ids.contains(placement_group_id) {
        (world, Ok(()))
    } else {
        let (world, now) = world.now();
        match now {
            Err(error) => (world, Err(error)),
            Ok(now) => completed(
                redacted(
                    world.detach_group(
                        phase(journal, name),
                        journal.service_id,
                        placement_group_id,
                        service.revision,
                        now,
                    ),
                ),
            ),
        }
    }
}

/// Detaches one group from a service that was just read, unless it shall stay.
pub fn detach_from<P: NodeModelOrchestrationPorts>(
    ports: &mut P,
    journal: &NodeModelJournal,
    service: &VersionedNodeModelService,
    placement_group_id: &PlacementGroupId,
    name: &str,
    stays: bool,
) -> (result: Result<(), NodeModelError>)
    ensures
        (final(ports).world(), result) == service_detached(
            old(ports).world(),
            journal@,
            service@,
            *placement_group_id,
            name@,
            stays,
        ),
{
    if stays || !contains_id(&service.service.placement_group_ids, placement_group_id) {
        return Ok(());
    }
    let now = ports.now()?;
    let key = phase_key(journal, name);
    match ports.detach_group(
        key.as_str(),
        &journal.service_id,
        placement_group_id,
        service.revision,
        now,
    ) {
        Ok(_) => Ok(()),
        Err(_) => Err(NodeModelError::StateUnavailable),
    }
}

/// The service of one command is read, and the group is detached from it unless it shall stay.
pub open spec fn group_detached(
    world: NodeModelWorld,
    journal: NodeModelJournalView,
    placement_group_id: PlacementGroupId,
    name: Seq<char>,
    stays: bool,
) -> Step<()> {
    let (world, service) = redacted(world.service(journal.service_id));
    match service {
        Err(error) => (world, Err(error)),
        Ok(service) => service_detached(world, journal, service, placement_group_id, name, stays),
    }
}

/// Detaches one group from the service of one command.
pub fn ensure_detached<P: NodeModelOrchestrationPorts>(
    ports: &mut P,
    journal: &NodeModelJournal,
    placement_group_id: &PlacementGroupId,
    name: &str,
    stays: bool,
) -> (result: Result<(), NodeModelError>)
    ensures
        (final(ports).world(), result) == group_detached(
            old(ports).world(),
            journal@,
            *placement_group_id,
            name@,
            stays,
        ),
{
    let service = known_service(ports, &journal.service_id)?;
    detach_from(ports, journal, &service, placement_group_id, name, stays)
}

// ---------------------------------------------------------------------------
// Runtime cleanup
// ---------------------------------------------------------------------------

/// One group that is not removed binds the installation.
pub open spec fn group_binds(
    record: PlacementRecordView,
    installation_id: RuntimeInstallationId,
) -> bool {
    &&& record.group.state != PlacementGroupState::Removed
    &&& exists|i: int|
        0 <= i < record.placements.len() && (
        #[trigger] record.placements[i]).runtime_installation_id == installation_id
}

/// Some group binds the installation.
pub open spec fn any_group_binds(
    records: Seq<PlacementRecordView>,
    installation_id: RuntimeInstallationId,
) -> bool {
    exists|i: int| 0 <= i < records.len() && group_binds(#[trigger] records[i], installation_id)
}

#[verifier::loop_isolation(false)]
fn group_is_bound(
    record: &PlacementRecord,
    installation_id: &RuntimeInstallationId,
) -> (bound: bool)
    ensures
        bound == group_binds(record@, *installation_id),
{
    if record.group.state == PlacementGroupState::Removed {
        return false;
    }
    let ghost placements = record@.placements;
    let mut i: usize = 0;
    while i < record.placements.len()
        invariant
            i <= record.placements@.len(),
            placements == views(record.placements@),
            forall|k: int|
                0 <= k < i ==> (#[trigger] placements[k]).runtime_installation_id
                    != *installation_id,
        decreases record.placements@.len() - i,
    {
        if record.placements[i].runtime_installation_id == *installation_id {
            assert(placements[i as int].runtime_installation_id == *installation_id);
            return true;
        }
        assert(placements[i as int].runtime_installation_id != *installation_id);
        i += 1;
    }
    false
}

/// Whether any group still binds one installation.
pub open spec fn runtime_referenced(
    world: NodeModelWorld,
    installation_id: RuntimeInstallationId,
) -> Step<bool> {
    let (world, records) = from_placement(world.group_records());
    match records {
        Err(error) => (world, Err(error)),
        Ok(records) => (world, Ok(any_group_binds(records, installation_id))),
    }
}

/// Returns whether any non-removed group still binds one exact runtime installation.
#[verifier::loop_isolation(false)]
pub fn runtime_is_referenced<P: NodeModelOrchestrationPorts>(
    ports: &mut P,
    installation_id: &RuntimeInstallationId,
) -> (referenced: Result<bool, NodeModelError>)
    ensures
        (final(ports).world(), referenced) == runtime_referenced(
            old(ports).world(),
            *installation_id,
        ),
{
    let records = match ports.records() {
        Ok(records) => records,
        Err(error) => {
            return Err(NodeModelError::Placement(error));
        },
    };
    let ghost all = views(records@);
    let ghost after = ports.world();
    let mut i: usize = 0;
    while i < records.len()
        invariant
            i <= records@.len(),
            all == views(records@),
            after == ports.world(),
            forall|k: int| 0 <= k < i ==> !group_binds(#[trigger] all[k], *installation_id),
        decreases records@.len() - i,
    {
        if group_is_bound(&records[i], installation_id) {
            assert(group_binds(all[i as int], *installation_id));
            return Ok(true);
        }
        assert(!group_binds(all[i as int], *installation_id));
        i += 1;
    }
    Ok(false)
}

/// The removal call that one retention decision asks for.
pub open spec fn removal_called(
    world: NodeModelWorld,
    installation_id: RuntimeInstallationId,
    retention: NodeModelRemovalRetention,
) -> (NodeModelWorld, Result<RuntimeInstallationView, RuntimeError>) {
    match retention {
        NodeModelRemovalRetention::RemoveUnreferencedRuntimes => world.remove_runtime(
            installation_id,
        ),
        NodeModelRemovalRetention::PreserveModels => world.remove_runtime_preserving_models(
            installation_id,
        ),
    }
}

/// One installation is removed unless a group binds it, it is unknown, or it is already removed.
pub open spec fn runtime_retired(
    world: NodeModelWorld,
    installation_id: RuntimeInstallationId,
    retention: NodeModelRemovalRetention,
) -> Step<()> {
    let (world, referenced) = runtime_referenced(world, installation_id);
    match referenced {
        Err(error) => (world, Err(error)),
        Ok(true) => (world, Ok(())),
        Ok(false) => {
            let (world, installation) = from_runtime(world.installation(installation_id));
            match installation {
                Err(error) => (world, Err(error)),
                Ok(None) => (world, Ok(())),
                Ok(Some(installation)) => if installation.state
                    == RuntimeInstallationState::Removed {
                    (world, Ok(()))
                } else {
                    let (world, change) = from_runtime(
                        removal_called(world, installation_id, retention),
                    );
                    match change {
                        Err(error) => (world, Err(error)),
                        Ok(change) => if change.state == RuntimeInstallationState::Removed {
                            (world, Ok(()))
                        } else {
                            (world, Err(NodeModelError::RecoveryRequired))
                        },
                    }
                },
            }
        },
    }
}

/// Removes one installation that no group binds any more.
pub fn retire_runtime<P: NodeModelOrchestrationPorts>(
    ports: &mut P,
    installation_id: &RuntimeInstallationId,
    retention: NodeModelRemovalRetention,
) -> (result: Result<(), NodeModelError>)
    ensures
        (final(ports).world(), result) == runtime_retired(
            old(ports).world(),
            *installation_id,
            retention,
        ),
{
    if runtime_is_referenced(ports, installation_id)? {
        return Ok(());
    }
    let installation = match listed_installation(ports, installation_id)? {
        Some(installation) => installation,
        None => {
            return Ok(());
        },
    };
    if installation.state == RuntimeInstallationState::Removed {
        return Ok(());
    }
    let reply = match retention {
        NodeModelRemovalRetention::RemoveUnreferencedRuntimes => {
            NodeModelRuntimePort::remove(ports, installation_id)
        },
        NodeModelRemovalRetention::PreserveModels => {
            ports.remove_preserving_models(installation_id)
        },
    };
    match reply {
        Ok(change) => {
            if change.state == RuntimeInstallationState::Removed {
                Ok(())
            } else {
                Err(NodeModelError::RecoveryRequired)
            }
        },
        Err(error) => Err(NodeModelError::Runtime(error)),
    }
}

/// The installation that one receipt's command created.
pub open spec fn created_installation(receipt: NodeModelRuntimeReceiptView) -> Option<
    RuntimeInstallationId,
> {
    if receipt.disposition == NodeModelRuntimeDisposition::Created {
        receipt.installation_id
    } else {
        None
    }
}

/// Every installation that the receipts' command created is retired, last receipt first.
pub open spec fn created_retired(
    world: NodeModelWorld,
    receipts: Seq<NodeModelRuntimeReceiptView>,
    left: int,
) -> Step<()>
    decreases left,
{
    if left <= 0 || left > receipts.len() {
        (world, Ok(()))
    } else {
        match created_installation(receipts[left - 1]) {
            None => created_retired(world, receipts, left - 1),
            Some(installation_id) => {
                let (world, result) = runtime_retired(
                    world,
                    installation_id,
                    NodeModelRemovalRetention::RemoveUnreferencedRuntimes,
                );
                match result {
                    Err(error) => (world, Err(error)),
                    Ok(_) => created_retired(world, receipts, left - 1),
                }
            },
        }
    }
}

/// Removes only command-created runtimes after every other group is authoritative.
#[verifier::loop_isolation(false)]
pub fn remove_created_runtimes<P: NodeModelOrchestrationPorts>(
    ports: &mut P,
    journal: &NodeModelJournal,
) -> (result: Result<(), NodeModelError>)
    ensures
        (final(ports).world(), result) == created_retired(
            old(ports).world(),
            journal@.runtime_receipts,
            journal@.runtime_receipts.len() as int,
        ),
{
    let ghost start = ports.world();
    let ghost receipts = journal@.runtime_receipts;
    let mut left: usize = journal.runtime_receipts.len();
    while left > 0
        invariant
            left <= journal.runtime_receipts@.len(),
            receipts == views(journal.runtime_receipts@),
            created_retired(ports.world(), receipts, left as int) == created_retired(
                start,
                receipts,
                receipts.len() as int,
            ),
        decreases left,
    {
        let receipt = &journal.runtime_receipts[left - 1];
        assert(receipts[left - 1] == receipt@);
        if receipt.disposition == NodeModelRuntimeDisposition::Created {
            match receipt.installation_id {
                Some(installation_id) => {
                    retire_runtime(
                        ports,
                        &installation_id,
                        NodeModelRemovalRetention::RemoveUnreferencedRuntimes,
                    )?;
                },
                None => {},
            }
        }
        left -= 1;
    }
    Ok(())
}

} // verus!
