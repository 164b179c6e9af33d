//! How the node's own managers stand behind the model ports: the clock, placement requests, the
//! benchmark subject and the revisions of services and operations.

use vstd::prelude::*;

use std::time::SystemTime;

use crate::database::{DatabaseError, NodeManagerError};
use crate::entity::{
    DeviceId, HardwareObservation, HardwareObservationView, InterconnectRequirement, ModelService,
    ModelServiceView, Operation, OperationView, PlacementError, PlacementGroupCapacity,
    PlacementNodeResources, PlacementNodeResourcesView, PlacementRequest, PlacementRequestView,
    PlacementTask, PlacementTaskView, PortRange, RuntimeError, RuntimeInstallation,
    RuntimeInstallationState, RuntimeInstallationView, TaskId,
};
use crate::entity::port_range_valid;
use crate::identity::{
    InstallationId, LogicalModelName, ModelServiceId, NodeAddress, NodeId, PlacementGroupId,
    RuntimeInstallationId, Sha256Digest, UnixMilliseconds,
};
use crate::node_manager::{NodeManagerChange, NodeManagerChangeView};
use crate::node_model_contract::{
    NodeModelError, VersionedNodeModelOperation, VersionedNodeModelOperationView,
    VersionedNodeModelService, VersionedNodeModelServiceView,
};
use crate::sequence::{copy_all, found, outcome, same_all, viewed, views, Valued};

verus! {

// ---------------------------------------------------------------------------
// The clock
// ---------------------------------------------------------------------------

/// An opaque point of the wall clock.
#[verifier::external_type_specification]
#[verifier::external_body]
pub struct ExSystemTime(SystemTime);

/// Calls `std::time::SystemTime::now`. Nothing is claimed of the reading: it depends on the clock.
#[verifier::external_body]
fn system_now() -> (now: SystemTime) {
    SystemTime::now()
}

/// Calls `std::time::SystemTime::duration_since` with the Unix epoch: the whole milliseconds since
/// the epoch, or nothing when the clock is behind it. Nothing is claimed of the number: it depends
/// on the reading.
#[verifier::external_body]
fn milliseconds_since_epoch(now: SystemTime) -> (milliseconds: Option<u128>) {
    now.duration_since(std::time::UNIX_EPOCH).ok().map(|elapsed| elapsed.as_millis())
}

/// The time that one reading of the wall clock gives: a clock behind the epoch, or beyond what the
/// milliseconds can count, gives none.
pub open spec fn wall_time(milliseconds: Option<u128>) -> Result<UnixMilliseconds, NodeModelError> {
    match milliseconds {
        Some(milliseconds) if milliseconds <= u64::MAX => Ok(
            UnixMilliseconds { value: milliseconds as u64 },
        ),
        _ => Err(NodeModelError::ProviderUnavailable),
    }
}

/// Supplies wall-clock time only through the model lifecycle clock capability.
#[derive(Clone, Copy, Debug, PartialEq, Eq, Structural)]
pub struct SystemNodeModelClock {}

impl SystemNodeModelClock {
    /// Converts one reading of the wall clock without truncating or wrapping it.
    pub fn time(milliseconds: Option<u128>) -> (time: Result<UnixMilliseconds, NodeModelError>)
        ensures
            time == wall_time(milliseconds),
    {
        match milliseconds {
            Some(milliseconds) => {
                if milliseconds > 0xffff_ffff_ffff_ffff {
                    return Err(NodeModelError::ProviderUnavailable);
                }
                Ok(UnixMilliseconds::new(milliseconds as u64))
            },
            None => Err(NodeModelError::ProviderUnavailable),
        }
    }

    /// Returns current Unix milliseconds without truncating or wrapping native time.
    pub fn now(&self) -> (time: Result<UnixMilliseconds, NodeModelError>)
        ensures
            exists|milliseconds: Option<u128>| time == wall_time(milliseconds),
    {
        let milliseconds = milliseconds_since_epoch(system_now());
        SystemNodeModelClock::time(milliseconds)
    }
}

// ---------------------------------------------------------------------------
// Placement requests
// ---------------------------------------------------------------------------

/// What one runtime serves at most.
#[derive(Clone, Copy, Debug, PartialEq, Eq, Structural)]
pub struct RuntimeServing {
    pub max_connections: u32,
    pub max_active_requests: u32,
    pub max_context_tokens: u64,
}

/// The benchmark contracts of one runtime.
#[derive(Clone, Copy, Debug, PartialEq, Eq, Structural)]
pub struct RuntimeBenchmark {
    pub contract_sha256: Sha256Digest,
    pub target_contract_sha256: Sha256Digest,
}

/// The verified execution manifest of one installation.
#[derive(Debug)]
pub struct RuntimeExecutionManifest {
    pub installation_id: RuntimeInstallationId,
    pub logical_model: LogicalModelName,
    pub tasks: Vec<PlacementTask>,
    pub startup_order: Vec<TaskId>,
    pub serving: RuntimeServing,
    pub benchmark: Option<RuntimeBenchmark>,
}

/// What one [`RuntimeExecutionManifest`] holds.
pub struct RuntimeExecutionManifestView {
    pub installation_id: RuntimeInstallationId,
    pub logical_model: Seq<char>,
    pub tasks: Seq<PlacementTaskView>,
    pub startup_order: Seq<Seq<char>>,
    pub serving: RuntimeServing,
    pub benchmark: Option<RuntimeBenchmark>,
}

impl View for RuntimeExecutionManifest {
    type V = RuntimeExecutionManifestView;

    open spec fn view(&self) -> RuntimeExecutionManifestView {
        RuntimeExecutionManifestView {
            installation_id: self.installation_id,
            logical_model: self.logical_model@,
            tasks: views(self.tasks@),
            startup_order: views(self.startup_order@),
            serving: self.serving,
            benchmark: self.benchmark,
        }
    }
}

impl Valued for RuntimeExecutionManifest {
    fn copy(&self) -> (copy: Self) {
        RuntimeExecutionManifest {
            installation_id: self.installation_id,
            logical_model: self.logical_model.copy(),
            tasks: copy_all(&self.tasks),
            startup_order: copy_all(&self.startup_order),
            serving: self.serving,
            benchmark: self.benchmark,
        }
    }

    fn same(&self, other: &Self) -> (same: bool) {
        self.installation_id == other.installation_id
            && self.logical_model.same(&other.logical_model)
            && same_all(&self.tasks, &other.tasks)
            && same_all(&self.startup_order, &other.startup_order)
            && self.serving == other.serving
            && self.benchmark == other.benchmark
    }
}

/// One read that a placement request needs.
#[derive(Clone, Copy, Debug, PartialEq, Eq, Structural)]
pub enum PlacementRead {
    Manifest { installation_id: RuntimeInstallationId },
    ControlAddress { node_id: NodeId },
    Observation { node_id: NodeId },
}

/// What the placement service says of the parts of one request: its capacity, the node's resources,
/// the task and the whole are judged in this order, and the first refusal counts.
#[derive(Clone, Copy, Debug, PartialEq, Eq, Structural)]
pub enum PlacementVerdict {
    Accepted,
    CapacityRefused,
    ResourcesRefused(PlacementError),
    TaskRefused(PlacementError),
    RequestRefused(PlacementError),
}

/// What one verdict makes of a request.
pub open spec fn verdict_given<T>(verdict: PlacementVerdict, request: T) -> Result<
    T,
    NodeModelError,
> {
    match verdict {
        PlacementVerdict::Accepted => Ok(request),
        PlacementVerdict::CapacityRefused => Err(NodeModelError::ProviderUnavailable),
        PlacementVerdict::ResourcesRefused(error) => Err(NodeModelError::Placement(error)),
        PlacementVerdict::TaskRefused(error) => Err(NodeModelError::Placement(error)),
        PlacementVerdict::RequestRefused(error) => Err(NodeModelError::Placement(error)),
    }
}

/// What the reads of one placement request gave so far, and what the placement service says of the
/// request.
pub struct PlacementObservations {
    pub manifest: Option<Result<RuntimeExecutionManifest, RuntimeError>>,
    pub control_address: Option<Result<NodeAddress, NodeManagerError>>,
    pub observation: Option<Result<HardwareObservation, NodeModelError>>,
    pub verdict: Option<PlacementVerdict>,
}

/// What one [`PlacementObservations`] holds.
pub struct PlacementObservationsView {
    pub manifest: Option<Result<RuntimeExecutionManifestView, RuntimeError>>,
    pub control_address: Option<Result<Seq<char>, NodeManagerError>>,
    pub observation: Option<Result<HardwareObservationView, NodeModelError>>,
    pub verdict: Option<PlacementVerdict>,
}

/// One optional outcome by view.
pub open spec fn seen_view<T: View, E>(seen: Option<Result<T, E>>) -> Option<Result<T::V, E>> {
    match seen {
        Some(result) => Some(outcome(result)),
        None => None,
    }
}

impl View for PlacementObservations {
    type V = PlacementObservationsView;

    open spec fn view(&self) -> PlacementObservationsView {
        PlacementObservationsView {
            manifest: seen_view(self.manifest),
            control_address: seen_view(self.control_address),
            observation: seen_view(self.observation),
            verdict: self.verdict,
        }
    }
}

/// What building one placement request does next: one more read, the placement service's verdict,
/// or the end.
pub enum PlacementRequestStep {
    Read(PlacementRead),
    Judge(PlacementRequest),
    Built(PlacementRequest),
}

/// What one [`PlacementRequestStep`] holds.
pub enum PlacementRequestStepView {
    Read(PlacementRead),
    Judge(PlacementRequestView),
    Built(PlacementRequestView),
}

impl View for PlacementRequestStep {
    type V = PlacementRequestStepView;

    open spec fn view(&self) -> PlacementRequestStepView {
        match self {
            PlacementRequestStep::Read(read) => PlacementRequestStepView::Read(*read),
            PlacementRequestStep::Judge(request) => PlacementRequestStepView::Judge(request@),
            PlacementRequestStep::Built(request) => PlacementRequestStepView::Built(request@),
        }
    }
}

/// Converts verified runtime task contracts and authenticated Node state into placement requests.
#[derive(Clone, Copy, Debug, PartialEq, Eq, Structural)]
pub struct NativeNodeModelPlacementRequestProvider {
    pub first_port: u16,
    pub port_count: u16,
}

/// The request for one task of one installation on the first devices of its node.
pub open spec fn native_request(
    provider: NativeNodeModelPlacementRequestProvider,
    service_id: ModelServiceId,
    placement_group_id: PlacementGroupId,
    installation: RuntimeInstallationView,
    manifest: RuntimeExecutionManifestView,
    control_address: Seq<char>,
    observation: HardwareObservationView,
) -> PlacementRequestView {
    let task = manifest.tasks[0];
    PlacementRequestView {
        placement_group_id,
        service_id,
        runtime: installation.runtime,
        capacity: PlacementGroupCapacity {
            max_connections: manifest.serving.max_connections,
            max_active_requests: manifest.serving.max_active_requests,
            max_context_tokens: manifest.serving.max_context_tokens,
            interconnect: InterconnectRequirement::unconstrained(),
        },
        tasks: seq![task],
        nodes: seq![
            PlacementNodeResourcesView {
                node_id: installation.node_id,
                runtime_installation_id: installation.installation_id,
                observation_id: observation.observation_id,
                boot_id: observation.boot_id,
                observed_at: observation.observed_at,
                control_address,
                device_ids: observation.device_ids.take(task.device_count as int),
                ports: PortRange { first: provider.first_port, count: provider.port_count },
            },
        ],
        primary_task_id: task.task_id,
        primary_node_id: installation.node_id,
        startup_order: manifest.startup_order,
    }
}

/// A manifest of exactly the installation, with one task.
pub open spec fn manifest_matches(
    manifest: RuntimeExecutionManifestView,
    installation: RuntimeInstallationView,
) -> bool {
    &&& manifest.installation_id == installation.installation_id
    &&& manifest.logical_model == installation.logical_model
    &&& manifest.tasks.len() == 1
}

/// What building one placement request does next.
pub open spec fn placement_built(
    provider: NativeNodeModelPlacementRequestProvider,
    service_id: ModelServiceId,
    group_index: usize,
    placement_group_id: PlacementGroupId,
    installations: Seq<RuntimeInstallationView>,
    seen: PlacementObservationsView,
) -> Result<PlacementRequestStepView, NodeModelError> {
    if installations.len() != 1 {
        Err(
            NodeModelError::InvalidRequest {
                reason: "native placement groups require exactly one runtime installation",
            },
        )
    } else {
        let installation = installations[0];
        match seen.manifest {
            None => Ok(
                PlacementRequestStepView::Read(
                    PlacementRead::Manifest { installation_id: installation.installation_id },
                ),
            ),
            Some(Err(error)) => Err(NodeModelError::Runtime(error)),
            Some(Ok(manifest)) => if !manifest_matches(manifest, installation) || group_index
                > 65535 {
                Err(NodeModelError::ProviderUnavailable)
            } else if manifest.tasks[0].port_count > provider.port_count {
                Err(
                    NodeModelError::InvalidRequest {
                        reason: "runtime task exceeds the configured placement port envelope",
                    },
                )
            } else {
                match seen.control_address {
                    None => Ok(
                        PlacementRequestStepView::Read(
                            PlacementRead::ControlAddress { node_id: installation.node_id },
                        ),
                    ),
                    Some(Err(_)) => Err(NodeModelError::StateUnavailable),
                    Some(Ok(control_address)) => match seen.observation {
                        None => Ok(
                            PlacementRequestStepView::Read(
                                PlacementRead::Observation { node_id: installation.node_id },
                            ),
                        ),
                        Some(Err(error)) => Err(error),
                        Some(Ok(observation)) => if observation.device_ids.len()
                            < manifest.tasks[0].device_count {
                            Err(
                                NodeModelError::InvalidRequest {
                                    reason: "runtime task exceeds the observed accelerator envelope",
                                },
                            )
                        } else if !port_range_valid(provider.first_port, provider.port_count) {
                            Err(NodeModelError::ProviderUnavailable)
                        } else {
                            let request = native_request(
                                provider,
                                service_id,
                                placement_group_id,
                                installation,
                                manifest,
                                control_address,
                                observation,
                            );
                            match seen.verdict {
                                None => Ok(PlacementRequestStepView::Judge(request)),
                                Some(verdict) => match verdict_given(verdict, request) {
                                    Ok(request) => Ok(PlacementRequestStepView::Built(request)),
                                    Err(error) => Err(error),
                                },
                            }
                        },
                    },
                }
            },
        }
    }
}

#[verifier::loop_isolation(false)]
fn first_devices(device_ids: &Vec<DeviceId>, count: usize) -> (first: Vec<DeviceId>)
    requires
        count <= device_ids@.len(),
    ensures
        views(first@) == views(device_ids@).take(count as int),
{
    let mut first: Vec<DeviceId> = Vec::new();
    let mut i: usize = 0;
    assert(views(first@) =~= views(device_ids@).take(0));
    while i < count
        invariant
            i <= count <= device_ids@.len(),
            views(first@) == views(device_ids@).take(i as int),
        decreases count - i,
    {
        let ghost before = first@;
        let device = device_ids[i].copy();
        let ghost value = device@;
        first.push(device);
        assert(views(first@) =~= views(before).push(value));
        assert(views(first@) =~= views(device_ids@).take(i + 1));
        i += 1;
    }
    first
}

impl NativeNodeModelPlacementRequestProvider {
    /// Creates one explicit local resource envelope without discovering or reserving hidden ports.
    pub fn new(first_port: u16, port_count: u16) -> (result: Result<Self, NodeModelError>)
        ensures
            result == (if port_range_valid(first_port, port_count) {
                Ok::<NativeNodeModelPlacementRequestProvider, NodeModelError>(
                    NativeNodeModelPlacementRequestProvider { first_port, port_count },
                )
            } else {
                Err(NodeModelError::ProviderUnavailable)
            }),
    {
        match PortRange::new(first_port, port_count) {
            Ok(_) => Ok(NativeNodeModelPlacementRequestProvider { first_port, port_count }),
            Err(_) => Err(NodeModelError::ProviderUnavailable),
        }
    }

    /// Builds one single-node request from an exact installed runtime and current hardware
    /// snapshot, one read after the other, as far as the placement service accepts it.
    pub fn request(
        &self,
        service_id: &ModelServiceId,
        group_index: usize,
        placement_group_id: &PlacementGroupId,
        installations: &Vec<RuntimeInstallation>,
        seen: &PlacementObservations,
    ) -> (step: Result<PlacementRequestStep, NodeModelError>)
        ensures
            outcome(step) == placement_built(
                *self,
                *service_id,
                group_index,
                *placement_group_id,
                views(installations@),
                seen@,
            ),
    {
        if installations.len() != 1 {
            return Err(
                NodeModelError::InvalidRequest {
                    reason: "native placement groups require exactly one runtime installation",
                },
            );
        }
        let installation = &installations[0];
        assert(views(installations@)[0] == installation@);
        let manifest = match &seen.manifest {
            None => {
                return Ok(
                    PlacementRequestStep::Read(
                        PlacementRead::Manifest { installation_id: installation.installation_id },
                    ),
                );
            },
            Some(Err(error)) => {
                return Err(NodeModelError::Runtime(*error));
            },
            Some(Ok(manifest)) => manifest,
        };
        if manifest.installation_id != installation.installation_id || !manifest.logical_model.same(
            &installation.logical_model,
        ) || manifest.tasks.len() != 1 || group_index > 65535 {
            return Err(NodeModelError::ProviderUnavailable);
        }
        let task = &manifest.tasks[0];
        assert(views(manifest.tasks@)[0] == task@);
        if task.port_count > self.port_count {
            return Err(
                NodeModelError::InvalidRequest {
                    reason: "runtime task exceeds the configured placement port envelope",
                },
            );
        }
        let control_address = match &seen.control_address {
            None => {
                return Ok(
                    PlacementRequestStep::Read(
                        PlacementRead::ControlAddress { node_id: installation.node_id },
                    ),
                );
            },
            Some(Err(_)) => {
                return Err(NodeModelError::StateUnavailable);
            },
            Some(Ok(control_address)) => control_address,
        };
        let observation = match &seen.observation {
            None => {
                return Ok(
                    PlacementRequestStep::Read(
                        PlacementRead::Observation { node_id: installation.node_id },
                    ),
                );
            },
            Some(Err(error)) => {
                return Err(*error);
            },
            Some(Ok(observation)) => observation,
        };
        let device_count: usize = task.device_count as usize;
        if observation.device_ids.len() < device_count {
            return Err(
                NodeModelError::InvalidRequest {
                    reason: "runtime task exceeds the observed accelerator envelope",
                },
            );
        }
        let ports = match PortRange::new(self.first_port, self.port_count) {
            Ok(ports) => ports,
            Err(_) => {
                return Err(NodeModelError::ProviderUnavailable);
            },
        };
        let resources = PlacementNodeResources {
            node_id: installation.node_id,
            runtime_installation_id: installation.installation_id,
            observation_id: observation.observation_id,
            boot_id: observation.boot_id.copy(),
            observed_at: observation.observed_at,
            control_address: control_address.copy(),
            device_ids: first_devices(&observation.device_ids, device_count),
            ports,
        };
        let ghost resources_view = resources@;
        let mut tasks: Vec<PlacementTask> = Vec::new();
        tasks.push(task.copy());
        assert(views(tasks@) =~= seq![task@]);
        let mut nodes: Vec<PlacementNodeResources> = Vec::new();
        nodes.push(resources);
        assert(views(nodes@) =~= seq![resources_view]);
        let request = PlacementRequest {
            placement_group_id: *placement_group_id,
            service_id: *service_id,
            runtime: installation.runtime.copy(),
            capacity: PlacementGroupCapacity {
                max_connections: manifest.serving.max_connections,
                max_active_requests: manifest.serving.max_active_requests,
                max_context_tokens: manifest.serving.max_context_tokens,
                interconnect: InterconnectRequirement::any(),
            },
            tasks,
            nodes,
            primary_task_id: task.task_id.copy(),
            primary_node_id: installation.node_id,
            startup_order: copy_all(&manifest.startup_order),
        };
        match seen.verdict {
            None => Ok(PlacementRequestStep::Judge(request)),
            Some(PlacementVerdict::Accepted) => Ok(PlacementRequestStep::Built(request)),
            Some(PlacementVerdict::CapacityRefused) => Err(NodeModelError::ProviderUnavailable),
            Some(PlacementVerdict::ResourcesRefused(error)) => Err(
                NodeModelError::Placement(error),
            ),
            Some(PlacementVerdict::TaskRefused(error)) => Err(NodeModelError::Placement(error)),
            Some(PlacementVerdict::RequestRefused(error)) => Err(NodeModelError::Placement(error)),
        }
    }
}

/// The request that the placement service accepts is the one that it was asked about.
pub proof fn law_built_request_was_judged(
    provider: NativeNodeModelPlacementRequestProvider,
    service_id: ModelServiceId,
    group_index: usize,
    placement_group_id: PlacementGroupId,
    installations: Seq<RuntimeInstallationView>,
    seen: PlacementObservationsView,
    verdict: PlacementVerdict,
)
    requires
        seen.verdict is None,
    ensures
        ({
            let judged = PlacementObservationsView { verdict: Some(verdict), ..seen };
            let next = placement_built(
                provider,
                service_id,
                group_index,
                placement_group_id,
                installations,
                judged,
            );
            match placement_built(
                provider,
                service_id,
                group_index,
                placement_group_id,
                installations,
                seen,
            ) {
                Ok(PlacementRequestStepView::Judge(request)) => next == (match verdict_given(
                    verdict,
                    request,
                ) {
                    Ok(request) => Ok::<PlacementRequestStepView, NodeModelError>(
                        PlacementRequestStepView::Built(request),
                    ),
                    Err(error) => Err(error),
                }),
                other => next == other,
            }
        }),
{
}

/// A built request never takes more ports than the configured envelope nor more devices than were
/// observed, and stays on the installation's own node.
pub proof fn law_built_request_stays_within_envelope(
    provider: NativeNodeModelPlacementRequestProvider,
    service_id: ModelServiceId,
    group_index: usize,
    placement_group_id: PlacementGroupId,
    installations: Seq<RuntimeInstallationView>,
    seen: PlacementObservationsView,
)
    ensures
        placement_built(
            provider,
            service_id,
            group_index,
            placement_group_id,
            installations,
            seen,
        ) matches Ok(PlacementRequestStepView::Built(request)) ==> {
            &&& request.placement_group_id == placement_group_id
            &&& request.service_id == service_id
            &&& request.tasks.len() == 1
            &&& request.nodes.len() == 1
            &&& request.nodes[0].node_id == installations[0].node_id
            &&& request.primary_node_id == installations[0].node_id
            &&& request.tasks[0].port_count <= request.nodes[0].ports.count
            &&& request.nodes[0].device_ids.len() == request.tasks[0].device_count
            &&& port_range_valid(request.nodes[0].ports.first, request.nodes[0].ports.count)
        },
{
}

/// The current durable observation of one node.
pub open spec fn current_observation(
    observation: Result<Option<HardwareObservationView>, NodeManagerError>,
) -> Result<HardwareObservationView, NodeModelError> {
    match observation {
        Err(_) => Err(NodeModelError::StateUnavailable),
        Ok(None) => Err(NodeModelError::ProviderUnavailable),
        Ok(Some(observation)) => Ok(observation),
    }
}

/// Returns the current durable observation for the exact authenticated node identity.
pub fn observation(
    stored: Result<Option<HardwareObservation>, NodeManagerError>,
) -> (current: Result<
    HardwareObservation,
    NodeModelError,
>)
    ensures
        outcome(current) == current_observation(found(stored)),
{
    match stored {
        Err(_) => Err(NodeModelError::StateUnavailable),
        Ok(None) => Err(NodeModelError::ProviderUnavailable),
        Ok(Some(observation)) => Ok(observation),
    }
}

// ---------------------------------------------------------------------------
// The benchmark subject
// ---------------------------------------------------------------------------

/// The failure of one candidate handoff.
#[derive(Clone, Copy, Debug, PartialEq, Eq, Structural)]
pub enum NodeBenchmarkCandidateHandoffError {
    RuntimeUnavailable,
}

/// What one benchmark measures.
#[derive(Debug)]
pub struct BenchmarkSubject {
    pub core_installation_id: InstallationId,
    pub runtime_installation_id: RuntimeInstallationId,
    pub logical_model: LogicalModelName,
    pub placement_group_id: PlacementGroupId,
    pub execution_sha256: Sha256Digest,
    pub contract_sha256: Sha256Digest,
    pub target_contract_sha256: Sha256Digest,
}

/// What one [`BenchmarkSubject`] holds.
pub struct BenchmarkSubjectView {
    pub core_installation_id: InstallationId,
    pub runtime_installation_id: RuntimeInstallationId,
    pub logical_model: Seq<char>,
    pub placement_group_id: PlacementGroupId,
    pub execution_sha256: Sha256Digest,
    pub contract_sha256: Sha256Digest,
    pub target_contract_sha256: Sha256Digest,
}

impl View for BenchmarkSubject {
    type V = BenchmarkSubjectView;

    open spec fn view(&self) -> BenchmarkSubjectView {
        BenchmarkSubjectView {
            core_installation_id: self.core_installation_id,
            runtime_installation_id: self.runtime_installation_id,
            logical_model: self.logical_model@,
            placement_group_id: self.placement_group_id,
            execution_sha256: self.execution_sha256,
            contract_sha256: self.contract_sha256,
            target_contract_sha256: self.target_contract_sha256,
        }
    }
}

impl Valued for BenchmarkSubject {
    fn copy(&self) -> (copy: Self) {
        BenchmarkSubject {
            core_installation_id: self.core_installation_id,
            runtime_installation_id: self.runtime_installation_id,
            logical_model: self.logical_model.copy(),
            placement_group_id: self.placement_group_id,
            execution_sha256: self.execution_sha256,
            contract_sha256: self.contract_sha256,
            target_contract_sha256: self.target_contract_sha256,
        }
    }

    fn same(&self, other: &Self) -> (same: bool) {
        self.core_installation_id == other.core_installation_id
            && self.runtime_installation_id == other.runtime_installation_id
            && self.logical_model.same(&other.logical_model)
            && self.placement_group_id == other.placement_group_id
            && self.execution_sha256 == other.execution_sha256
            && self.contract_sha256 == other.contract_sha256
            && self.target_contract_sha256 == other.target_contract_sha256
    }
}

/// An installation that is available under the expected execution contract.
pub open spec fn candidate_available(
    installation: Result<Option<RuntimeInstallationView>, RuntimeError>,
    expected_execution_sha256: Sha256Digest,
) -> bool {
    installation matches Ok(Some(installation)) && installation.state
        == RuntimeInstallationState::Available && installation.runtime.execution_contract_digest
        == expected_execution_sha256
}

/// The subject of one candidate: an available installation under the expected contract whose own
/// manifest names its benchmark.
pub open spec fn subject_resolved(
    core_installation_id: InstallationId,
    candidate_installation_id: RuntimeInstallationId,
    candidate_group_id: PlacementGroupId,
    expected_execution_sha256: Sha256Digest,
    installation: Result<Option<RuntimeInstallationView>, RuntimeError>,
    manifest: Option<RuntimeExecutionManifestView>,
) -> Result<BenchmarkSubjectView, NodeBenchmarkCandidateHandoffError> {
    if !candidate_available(installation, expected_execution_sha256) {
        Err(NodeBenchmarkCandidateHandoffError::RuntimeUnavailable)
    } else {
        match manifest {
            Some(manifest) if manifest.benchmark is Some && manifest.installation_id
                == candidate_installation_id && manifest.logical_model
                == installation->Ok_0->Some_0.logical_model => Ok(
                BenchmarkSubjectView {
                    core_installation_id,
                    runtime_installation_id: candidate_installation_id,
                    logical_model: manifest.logical_model,
                    placement_group_id: candidate_group_id,
                    execution_sha256: expected_execution_sha256,
                    contract_sha256: manifest.benchmark->Some_0.contract_sha256,
                    target_contract_sha256: manifest.benchmark->Some_0.target_contract_sha256,
                },
            ),
            _ => Err(NodeBenchmarkCandidateHandoffError::RuntimeUnavailable),
        }
    }
}

/// Resolves benchmark and target contract identities from the exact verified execution manifest;
/// a manifest that could not be read is absent.
pub fn benchmark_subject(
    core_installation_id: &InstallationId,
    candidate_installation_id: &RuntimeInstallationId,
    candidate_group_id: &PlacementGroupId,
    expected_execution_sha256: &Sha256Digest,
    installation: &Result<Option<RuntimeInstallation>, RuntimeError>,
    manifest: &Option<RuntimeExecutionManifest>,
) -> (subject: Result<BenchmarkSubject, NodeBenchmarkCandidateHandoffError>)
    ensures
        outcome(subject) == subject_resolved(
            *core_installation_id,
            *candidate_installation_id,
            *candidate_group_id,
            *expected_execution_sha256,
            found(*installation),
            viewed(*manifest),
        ),
{
    let installation = match installation {
        Ok(Some(installation)) => installation,
        _ => {
            return Err(NodeBenchmarkCandidateHandoffError::RuntimeUnavailable);
        },
    };
    if !matches!(installation.state, RuntimeInstallationState::Available)
        || installation.runtime.execution_contract_digest != *expected_execution_sha256 {
        return Err(NodeBenchmarkCandidateHandoffError::RuntimeUnavailable);
    }
    let manifest = match manifest {
        Some(manifest) => manifest,
        None => {
            return Err(NodeBenchmarkCandidateHandoffError::RuntimeUnavailable);
        },
    };
    let benchmark = match manifest.benchmark {
        Some(benchmark) => benchmark,
        None => {
            return Err(NodeBenchmarkCandidateHandoffError::RuntimeUnavailable);
        },
    };
    if manifest.installation_id != *candidate_installation_id || !manifest.logical_model.same(
        &installation.logical_model,
    ) {
        return Err(NodeBenchmarkCandidateHandoffError::RuntimeUnavailable);
    }
    Ok(
        BenchmarkSubject {
            core_installation_id: *core_installation_id,
            runtime_installation_id: *candidate_installation_id,
            logical_model: manifest.logical_model.copy(),
            placement_group_id: *candidate_group_id,
            execution_sha256: *expected_execution_sha256,
            contract_sha256: benchmark.contract_sha256,
            target_contract_sha256: benchmark.target_contract_sha256,
        },
    )
}

// ---------------------------------------------------------------------------
// Revisions
// ---------------------------------------------------------------------------

/// The service of one change at its revision.
pub open spec fn versioned_service_of(
    change: Result<NodeManagerChangeView<ModelServiceView>, NodeManagerError>,
) -> Result<VersionedNodeModelServiceView, NodeManagerError> {
    match change {
        Err(error) => Err(error),
        Ok(change) => Ok(
            VersionedNodeModelServiceView { service: change.value, revision: change.revision },
        ),
    }
}

/// Returns the service of one change with its optimistic revision.
pub fn versioned_service(
    change: Result<NodeManagerChange<ModelService>, NodeManagerError>,
) -> (versioned: Result<
    VersionedNodeModelService,
    NodeManagerError,
>)
    ensures
        outcome(versioned) == versioned_service_of(outcome(change)),
{
    match change {
        Err(error) => Err(error),
        Ok(change) => Ok(
            VersionedNodeModelService { service: change.value, revision: change.revision },
        ),
    }
}

/// The operation of one change at its revision.
pub open spec fn versioned_operation_of(
    change: Result<NodeManagerChangeView<OperationView>, NodeManagerError>,
) -> Result<VersionedNodeModelOperationView, NodeManagerError> {
    match change {
        Err(error) => Err(error),
        Ok(change) => Ok(
            VersionedNodeModelOperationView {
                operation: change.value,
                revision: change.revision,
            },
        ),
    }
}

/// Returns the operation of one change with its optimistic revision.
pub fn versioned_operation(
    change: Result<NodeManagerChange<Operation>, NodeManagerError>,
) -> (versioned: Result<
    VersionedNodeModelOperation,
    NodeManagerError,
>)
    ensures
        outcome(versioned) == versioned_operation_of(outcome(change)),
{
    match change {
        Err(error) => Err(error),
        Ok(change) => Ok(
            VersionedNodeModelOperation { operation: change.value, revision: change.revision },
        ),
    }
}

/// The operation of one lookup, none when it is missing.
pub open spec fn operation_found(
    change: Result<NodeManagerChangeView<OperationView>, NodeManagerError>,
) -> Result<Option<VersionedNodeModelOperationView>, NodeManagerError> {
    match change {
        Err(NodeManagerError::Database(DatabaseError::NotFound { .. })) => Ok(None),
        Err(error) => Err(error),
        Ok(change) => Ok(
            Some(
                VersionedNodeModelOperationView {
                    operation: change.value,
                    revision: change.revision,
                },
            ),
        ),
    }
}

/// Returns one exact operation with its optimistic revision, none when it is missing.
pub fn find_operation(
    change: Result<NodeManagerChange<Operation>, NodeManagerError>,
) -> (operation: Result<
    Option<VersionedNodeModelOperation>,
    NodeManagerError,
>)
    ensures
        found(operation) == operation_found(outcome(change)),
{
    match change {
        Ok(change) => Ok(
            Some(
                VersionedNodeModelOperation { operation: change.value, revision: change.revision },
            ),
        ),
        Err(error) => match error {
            NodeManagerError::Database(DatabaseError::NotFound { .. }) => Ok(None),
            _ => Err(error),
        },
    }
}

} // verus!
