//! The entities that the node owner reads and writes, as plain values.

use vstd::prelude::*;

use crate::identity::{
    clone_ids, distinct_ids, same_ids, DisplayName, EntityTimestamps, HardwareObservationId,
    InstallationId, InterfaceError, LogicalModelName, MachineId, ModelServiceId, Name, NodeAddress,
    NodeId, OperationId, PlacementGroupId, RuntimeCandidateId, RuntimeInstallationId,
    RuntimeSource, RuntimeVersion, Sha256Digest, TargetId, TechnicalName, TimeSpan,
    UnixMilliseconds,
};
use crate::identity::{DeviceKind, BootKind, LogCursorKind, TaskKind};
use crate::sequence::{
    copy_all, copy_bytes, copy_optional, same_all, same_bytes, same_optional, viewed, views, Valued,
};

verus! {

pub type BootId = Name<BootKind>;

pub type DeviceId = Name<DeviceKind>;

pub type TaskId = Name<TaskKind>;

pub type PlacementLogCursor = Name<LogCursorKind>;

// ---------------------------------------------------------------------------
// Nodes
// ---------------------------------------------------------------------------

/// The authority that one node holds.
#[derive(Clone, Copy, Debug, PartialEq, Eq, Structural)]
pub enum NodeRole {
    Main,
    Child,
}

/// The lifecycle state of one node.
#[derive(Clone, Copy, Debug, PartialEq, Eq, Structural)]
pub enum NodeState {
    Pending,
    Active,
    Draining,
    Offline,
    Removed,
}

/// The immutable identity of one node.
#[derive(Clone, Copy, Debug, PartialEq, Eq, Structural)]
pub struct NodeIdentity {
    pub node_id: NodeId,
    pub machine_id: MachineId,
    pub installation_id: InstallationId,
}

impl View for NodeIdentity {
    type V = NodeIdentity;

    open spec fn view(&self) -> NodeIdentity {
        *self
    }
}

impl Valued for NodeIdentity {
    fn copy(&self) -> (copy: Self) {
        *self
    }

    fn same(&self, other: &Self) -> (same: bool) {
        *self == *other
    }
}

impl NodeIdentity {
    /// Creates one identity.
    pub fn new(
        node_id: NodeId,
        machine_id: MachineId,
        installation_id: InstallationId,
    ) -> (identity: NodeIdentity)
        ensures
            identity == (NodeIdentity { node_id, machine_id, installation_id }),
    {
        NodeIdentity { node_id, machine_id, installation_id }
    }
}

/// One node of the topology.
#[derive(Debug)]
pub struct Node {
    pub identity: NodeIdentity,
    pub display_name: DisplayName,
    pub role: NodeRole,
    pub state: NodeState,
    pub control_address: NodeAddress,
    pub latest_hardware_observation_id: Option<HardwareObservationId>,
    pub timestamps: EntityTimestamps,
}

/// What one [`Node`] holds.
pub struct NodeView {
    pub identity: NodeIdentity,
    pub display_name: Seq<char>,
    pub role: NodeRole,
    pub state: NodeState,
    pub control_address: Seq<char>,
    pub latest_hardware_observation_id: Option<HardwareObservationId>,
    pub timestamps: EntityTimestamps,
}

impl View for Node {
    type V = NodeView;

    open spec fn view(&self) -> NodeView {
        NodeView {
            identity: self.identity,
            display_name: self.display_name@,
            role: self.role,
            state: self.state,
            control_address: self.control_address@,
            latest_hardware_observation_id: self.latest_hardware_observation_id,
            timestamps: self.timestamps,
        }
    }
}

impl Valued for Node {
    fn copy(&self) -> (copy: Self) {
        Node {
            identity: self.identity,
            display_name: self.display_name.copy(),
            role: self.role,
            state: self.state,
            control_address: self.control_address.copy(),
            latest_hardware_observation_id: self.latest_hardware_observation_id,
            timestamps: self.timestamps,
        }
    }

    fn same(&self, other: &Self) -> (same: bool) {
        self.identity == other.identity
            && self.display_name.same(&other.display_name)
            && self.role == other.role
            && self.state == other.state
            && self.control_address.same(&other.control_address)
            && self.latest_hardware_observation_id == other.latest_hardware_observation_id
            && self.timestamps == other.timestamps
    }
}

impl NodeView {
    /// One node that may act as a main authority.
    pub open spec fn is_active_main(self) -> bool {
        self.role == NodeRole::Main && self.state == NodeState::Active
    }
}

impl Node {
    /// Returns whether the node may act as a main authority.
    pub fn is_active_main(&self) -> (active: bool)
        ensures
            active == self@.is_active_main(),
    {
        self.role == NodeRole::Main && self.state == NodeState::Active
    }
}

// ---------------------------------------------------------------------------
// Model services and operations
// ---------------------------------------------------------------------------

/// What a model service is meant to do.
#[derive(Clone, Copy, Debug, PartialEq, Eq, Structural)]
pub enum ModelServiceDesiredState {
    Running,
    Stopped,
    Removed,
}

/// One logical model service.
#[derive(Debug)]
pub struct ModelService {
    pub(crate) service_id: ModelServiceId,
    pub(crate) logical_model: LogicalModelName,
    pub(crate) desired_state: ModelServiceDesiredState,
    pub(crate) placement_group_ids: Vec<PlacementGroupId>,
    pub(crate) timestamps: EntityTimestamps,
}

/// What one [`ModelService`] holds.
pub struct ModelServiceView {
    pub service_id: ModelServiceId,
    pub logical_model: Seq<char>,
    pub desired_state: ModelServiceDesiredState,
    pub placement_group_ids: Seq<PlacementGroupId>,
    pub timestamps: EntityTimestamps,
}

impl View for ModelService {
    type V = ModelServiceView;

    open(crate) spec fn view(&self) -> ModelServiceView {
        ModelServiceView {
            service_id: self.service_id,
            logical_model: self.logical_model@,
            desired_state: self.desired_state,
            placement_group_ids: self.placement_group_ids@,
            timestamps: self.timestamps,
        }
    }
}

impl Valued for ModelService {
    fn copy(&self) -> (copy: Self) {
        proof {
            use_type_invariant(self);
        }
        ModelService {
            service_id: self.service_id,
            logical_model: self.logical_model.copy(),
            desired_state: self.desired_state,
            placement_group_ids: clone_ids(&self.placement_group_ids),
            timestamps: self.timestamps,
        }
    }

    fn same(&self, other: &Self) -> (same: bool) {
        self.service_id == other.service_id
            && self.logical_model.same(&other.logical_model)
            && self.desired_state == other.desired_state
            && same_ids(&self.placement_group_ids, &other.placement_group_ids)
            && self.timestamps == other.timestamps
    }
}

/// A service exists exactly when no placement group occurs twice; that rule is this library's own
/// choice.
pub open spec fn model_service(
    service_id: ModelServiceId,
    logical_model: Seq<char>,
    desired_state: ModelServiceDesiredState,
    placement_group_ids: Seq<PlacementGroupId>,
    timestamps: EntityTimestamps,
) -> Result<ModelServiceView, InterfaceError> {
    if placement_group_ids.no_duplicates() {
        Ok(
            ModelServiceView {
                service_id,
                logical_model,
                desired_state,
                placement_group_ids,
                timestamps,
            },
        )
    } else {
        Err(InterfaceError::InvalidService)
    }
}

impl ModelService {
    #[verifier::type_invariant]
    pub(crate) open(crate) spec fn is_valid(self) -> bool {
        self@.placement_group_ids.no_duplicates()
    }

    /// Returns the identity of the service.
    pub fn service_id(&self) -> (value: ModelServiceId)
        ensures
            value == self@.service_id,
    {
        self.service_id
    }

    /// Returns the model that the service serves.
    pub fn logical_model(&self) -> (value: &LogicalModelName)
        ensures
            value@ == self@.logical_model,
    {
        &self.logical_model
    }

    /// Returns what the service is meant to do.
    pub fn desired_state(&self) -> (value: ModelServiceDesiredState)
        ensures
            value == self@.desired_state,
    {
        self.desired_state
    }

    /// Returns the distinct placement groups in order.
    pub fn placement_group_ids(&self) -> (value: &Vec<PlacementGroupId>)
        ensures
            value@ == self@.placement_group_ids,
    {
        &self.placement_group_ids
    }

    /// Returns when the service was created and last updated.
    pub fn timestamps(&self) -> (value: EntityTimestamps)
        ensures
            value == self@.timestamps,
    {
        self.timestamps
    }

    /// Creates one service whose placement groups are distinct.
    pub fn new(
        service_id: ModelServiceId,
        logical_model: LogicalModelName,
        desired_state: ModelServiceDesiredState,
        placement_group_ids: Vec<PlacementGroupId>,
        timestamps: EntityTimestamps,
    ) -> (result: Result<ModelService, InterfaceError>)
        ensures
            crate::sequence::outcome(result) == model_service(
                service_id,
                logical_model@,
                desired_state,
                placement_group_ids@,
                timestamps,
            ),
    {
        if !distinct_ids(&placement_group_ids) {
            return Err(InterfaceError::InvalidService);
        }
        Ok(
            ModelService {
                service_id,
                logical_model,
                desired_state,
                placement_group_ids,
                timestamps,
            },
        )
    }
}

/// What one operation does.
#[derive(Clone, Copy, Debug, PartialEq, Eq, Structural)]
pub enum OperationKind {
    Install,
    Update,
    Start,
    Stop,
    Restart,
    Recover,
    Remove,
}

/// What one operation acts on.
#[derive(Clone, Copy, Debug, PartialEq, Eq, Structural)]
pub enum OperationTarget {
    Node(NodeId),
    ModelService(ModelServiceId),
}

/// The lifecycle state of one operation.
#[derive(Clone, Copy, Debug, PartialEq, Eq, Structural)]
pub enum OperationState {
    Pending,
    Running,
    Succeeded,
    Failed,
    Cancelled,
}

/// Why one operation failed, without secrets.
#[derive(Debug)]
pub struct FailureDescription {
    pub code: TechnicalName,
    pub message: String,
}

/// What one [`FailureDescription`] holds.
pub struct FailureDescriptionView {
    pub code: Seq<char>,
    pub message: Seq<char>,
}

impl View for FailureDescription {
    type V = FailureDescriptionView;

    open spec fn view(&self) -> FailureDescriptionView {
        FailureDescriptionView {
            code: self.code@,
            message: self.message@,
        }
    }
}

impl Valued for FailureDescription {
    fn copy(&self) -> (copy: Self) {
        FailureDescription {
            code: self.code.copy(),
            message: self.message.copy(),
        }
    }

    fn same(&self, other: &Self) -> (same: bool) {
        self.code.same(&other.code)
            && self.message.same(&other.message)
    }
}

/// One user-visible operation.
#[derive(Debug)]
pub struct Operation {
    pub(crate) operation_id: OperationId,
    pub(crate) kind: OperationKind,
    pub(crate) target: OperationTarget,
    pub(crate) state: OperationState,
    pub(crate) failure: Option<FailureDescription>,
    pub(crate) completed_at: Option<UnixMilliseconds>,
    pub(crate) timestamps: EntityTimestamps,
}

/// What one [`Operation`] holds.
pub struct OperationView {
    pub operation_id: OperationId,
    pub kind: OperationKind,
    pub target: OperationTarget,
    pub state: OperationState,
    pub failure: Option<FailureDescriptionView>,
    pub completed_at: Option<UnixMilliseconds>,
    pub timestamps: EntityTimestamps,
}

impl View for Operation {
    type V = OperationView;

    open(crate) spec fn view(&self) -> OperationView {
        OperationView {
            operation_id: self.operation_id,
            kind: self.kind,
            target: self.target,
            state: self.state,
            failure: viewed(self.failure),
            completed_at: self.completed_at,
            timestamps: self.timestamps,
        }
    }
}

impl Valued for Operation {
    fn copy(&self) -> (copy: Self) {
        proof {
            use_type_invariant(self);
        }
        Operation {
            operation_id: self.operation_id,
            kind: self.kind,
            target: self.target,
            state: self.state,
            failure: copy_optional(&self.failure),
            completed_at: self.completed_at,
            timestamps: self.timestamps,
        }
    }

    fn same(&self, other: &Self) -> (same: bool) {
        self.operation_id == other.operation_id
            && self.kind == other.kind
            && self.target == other.target
            && self.state == other.state
            && same_optional(&self.failure, &other.failure)
            && self.completed_at == other.completed_at
            && self.timestamps == other.timestamps
    }
}

/// States in which one operation has ended.
pub open spec fn operation_ended(state: OperationState) -> bool {
    state == OperationState::Succeeded || state == OperationState::Failed || state
        == OperationState::Cancelled
}

/// An operation exists exactly when it names a failure if it failed and an end if it ended; that
/// rule is this library's own choice.
pub open spec fn entity_operation(
    operation_id: OperationId,
    kind: OperationKind,
    target: OperationTarget,
    state: OperationState,
    failure: Option<FailureDescriptionView>,
    completed_at: Option<UnixMilliseconds>,
    timestamps: EntityTimestamps,
) -> Result<OperationView, InterfaceError> {
    if (failure is Some) == (state == OperationState::Failed) && (completed_at is Some)
        == operation_ended(state) {
        Ok(OperationView { operation_id, kind, target, state, failure, completed_at, timestamps })
    } else {
        Err(InterfaceError::InvalidOperation)
    }
}

impl Operation {
    #[verifier::type_invariant]
    pub(crate) open(crate) spec fn is_valid(self) -> bool {
        entity_operation(
            self@.operation_id,
            self@.kind,
            self@.target,
            self@.state,
            self@.failure,
            self@.completed_at,
            self@.timestamps,
        ) is Ok
    }

    /// Returns the identity of the operation.
    pub fn operation_id(&self) -> (value: OperationId)
        ensures
            value == self@.operation_id,
    {
        self.operation_id
    }

    /// Returns what the operation does.
    pub fn kind(&self) -> (value: OperationKind)
        ensures
            value == self@.kind,
    {
        self.kind
    }

    /// Returns what the operation acts on.
    pub fn target(&self) -> (value: OperationTarget)
        ensures
            value == self@.target,
    {
        self.target
    }

    /// Returns the lifecycle state.
    pub fn state(&self) -> (value: OperationState)
        ensures
            value == self@.state,
    {
        self.state
    }

    /// Returns why the operation failed, if it did.
    pub fn failure(&self) -> (value: &Option<FailureDescription>)
        ensures
            viewed(*value) == self@.failure,
    {
        &self.failure
    }

    /// Returns when the operation ended, if it has.
    pub fn completed_at(&self) -> (value: Option<UnixMilliseconds>)
        ensures
            value == self@.completed_at,
    {
        self.completed_at
    }

    /// Returns when the operation was created and last updated.
    pub fn timestamps(&self) -> (value: EntityTimestamps)
        ensures
            value == self@.timestamps,
    {
        self.timestamps
    }

    /// Creates one coherent operation.
    pub fn new(
        operation_id: OperationId,
        kind: OperationKind,
        target: OperationTarget,
        state: OperationState,
        failure: Option<FailureDescription>,
        completed_at: Option<UnixMilliseconds>,
        timestamps: EntityTimestamps,
    ) -> (result: Result<Operation, InterfaceError>)
        ensures
            crate::sequence::outcome(result) == entity_operation(
                operation_id,
                kind,
                target,
                state,
                viewed(failure),
                completed_at,
                timestamps,
            ),
    {
        let ended = state == OperationState::Succeeded || state == OperationState::Failed || state
            == OperationState::Cancelled;
        if failure.is_some() != (state == OperationState::Failed) || completed_at.is_some()
            != ended {
            return Err(InterfaceError::InvalidOperation);
        }
        Ok(Operation { operation_id, kind, target, state, failure, completed_at, timestamps })
    }
}

// ---------------------------------------------------------------------------
// Runtimes and hardware
// ---------------------------------------------------------------------------

/// One sealed runtime.
#[derive(Debug)]
pub struct RuntimeIdentity {
    pub candidate_id: RuntimeCandidateId,
    pub version: RuntimeVersion,
    pub target_id: TargetId,
    pub source: RuntimeSource,
    pub execution_contract_digest: Sha256Digest,
}

/// What one [`RuntimeIdentity`] holds.
pub struct RuntimeIdentityView {
    pub candidate_id: Seq<char>,
    pub version: Seq<char>,
    pub target_id: Seq<char>,
    pub source: Seq<char>,
    pub execution_contract_digest: Sha256Digest,
}

impl View for RuntimeIdentity {
    type V = RuntimeIdentityView;

    open spec fn view(&self) -> RuntimeIdentityView {
        RuntimeIdentityView {
            candidate_id: self.candidate_id@,
            version: self.version@,
            target_id: self.target_id@,
            source: self.source@,
            execution_contract_digest: self.execution_contract_digest,
        }
    }
}

impl Valued for RuntimeIdentity {
    fn copy(&self) -> (copy: Self) {
        RuntimeIdentity {
            candidate_id: self.candidate_id.copy(),
            version: self.version.copy(),
            target_id: self.target_id.copy(),
            source: self.source.copy(),
            execution_contract_digest: self.execution_contract_digest,
        }
    }

    fn same(&self, other: &Self) -> (same: bool) {
        self.candidate_id.same(&other.candidate_id)
            && self.version.same(&other.version)
            && self.target_id.same(&other.target_id)
            && self.source.same(&other.source)
            && self.execution_contract_digest == other.execution_contract_digest
    }
}

/// The lifecycle state of one runtime installation.
#[derive(Clone, Copy, Debug, PartialEq, Eq, Structural)]
pub enum RuntimeInstallationState {
    Staging,
    Available,
    Removing,
    Removed,
    Failed,
}

/// A descriptive evidence label.
#[derive(Clone, Copy, Debug, PartialEq, Eq, Structural)]
pub struct EvidenceLabel {
    pub code: u8,
}

impl View for EvidenceLabel {
    type V = EvidenceLabel;

    open spec fn view(&self) -> EvidenceLabel {
        *self
    }
}

impl Valued for EvidenceLabel {
    fn copy(&self) -> (copy: Self) {
        *self
    }

    fn same(&self, other: &Self) -> (same: bool) {
        *self == *other
    }
}

/// One selected runtime with its artifacts.
#[derive(Debug)]
pub struct RuntimeCandidate {
    pub logical_model: LogicalModelName,
    pub runtime: RuntimeIdentity,
    pub artifacts: Vec<Sha256Digest>,
}

/// What one [`RuntimeCandidate`] holds.
pub struct RuntimeCandidateView {
    pub logical_model: Seq<char>,
    pub runtime: RuntimeIdentityView,
    pub artifacts: Seq<Sha256Digest>,
}

impl View for RuntimeCandidate {
    type V = RuntimeCandidateView;

    open spec fn view(&self) -> RuntimeCandidateView {
        RuntimeCandidateView {
            logical_model: self.logical_model@,
            runtime: self.runtime@,
            artifacts: views(self.artifacts@),
        }
    }
}

impl Valued for RuntimeCandidate {
    fn copy(&self) -> (copy: Self) {
        RuntimeCandidate {
            logical_model: self.logical_model.copy(),
            runtime: self.runtime.copy(),
            artifacts: copy_all(&self.artifacts),
        }
    }

    fn same(&self, other: &Self) -> (same: bool) {
        self.logical_model.same(&other.logical_model)
            && self.runtime.same(&other.runtime)
            && same_all(&self.artifacts, &other.artifacts)
    }
}

/// One runtime installed on one node.
#[derive(Debug)]
pub struct RuntimeInstallation {
    pub installation_id: RuntimeInstallationId,
    pub node_id: NodeId,
    pub logical_model: LogicalModelName,
    pub runtime: RuntimeIdentity,
    pub artifacts: Vec<Sha256Digest>,
    pub state: RuntimeInstallationState,
    pub evidence_label: EvidenceLabel,
}

/// What one [`RuntimeInstallation`] holds.
pub struct RuntimeInstallationView {
    pub installation_id: RuntimeInstallationId,
    pub node_id: NodeId,
    pub logical_model: Seq<char>,
    pub runtime: RuntimeIdentityView,
    pub artifacts: Seq<Sha256Digest>,
    pub state: RuntimeInstallationState,
    pub evidence_label: EvidenceLabel,
}

impl View for RuntimeInstallation {
    type V = RuntimeInstallationView;

    open spec fn view(&self) -> RuntimeInstallationView {
        RuntimeInstallationView {
            installation_id: self.installation_id,
            node_id: self.node_id,
            logical_model: self.logical_model@,
            runtime: self.runtime@,
            artifacts: views(self.artifacts@),
            state: self.state,
            evidence_label: self.evidence_label,
        }
    }
}

impl Valued for RuntimeInstallation {
    fn copy(&self) -> (copy: Self) {
        RuntimeInstallation {
            installation_id: self.installation_id,
            node_id: self.node_id,
            logical_model: self.logical_model.copy(),
            runtime: self.runtime.copy(),
            artifacts: copy_all(&self.artifacts),
            state: self.state,
            evidence_label: self.evidence_label,
        }
    }

    fn same(&self, other: &Self) -> (same: bool) {
        self.installation_id == other.installation_id
            && self.node_id == other.node_id
            && self.logical_model.same(&other.logical_model)
            && self.runtime.same(&other.runtime)
            && same_all(&self.artifacts, &other.artifacts)
            && self.state == other.state
            && self.evidence_label == other.evidence_label
    }
}

/// One failure of runtime selection, acquisition or removal.
#[derive(Clone, Copy, Debug, PartialEq, Eq, Structural)]
pub enum RuntimeError {
    InstallationUnavailable,
    ArtifactUnavailable,
    Other { code: u32 },
}

/// One boot-scoped hardware observation.
#[derive(Debug)]
pub struct HardwareObservation {
    pub observation_id: HardwareObservationId,
    pub node_id: NodeId,
    pub boot_id: BootId,
    pub observed_at: UnixMilliseconds,
    pub device_ids: Vec<DeviceId>,
}

/// What one [`HardwareObservation`] holds.
pub struct HardwareObservationView {
    pub observation_id: HardwareObservationId,
    pub node_id: NodeId,
    pub boot_id: Seq<char>,
    pub observed_at: UnixMilliseconds,
    pub device_ids: Seq<Seq<char>>,
}

impl View for HardwareObservation {
    type V = HardwareObservationView;

    open spec fn view(&self) -> HardwareObservationView {
        HardwareObservationView {
            observation_id: self.observation_id,
            node_id: self.node_id,
            boot_id: self.boot_id@,
            observed_at: self.observed_at,
            device_ids: views(self.device_ids@),
        }
    }
}

impl Valued for HardwareObservation {
    fn copy(&self) -> (copy: Self) {
        HardwareObservation {
            observation_id: self.observation_id,
            node_id: self.node_id,
            boot_id: self.boot_id.copy(),
            observed_at: self.observed_at,
            device_ids: copy_all(&self.device_ids),
        }
    }

    fn same(&self, other: &Self) -> (same: bool) {
        self.observation_id == other.observation_id
            && self.node_id == other.node_id
            && self.boot_id.same(&other.boot_id)
            && self.observed_at == other.observed_at
            && same_all(&self.device_ids, &other.device_ids)
    }
}

// ---------------------------------------------------------------------------
// Placements
// ---------------------------------------------------------------------------

/// The lifecycle state of one placement group.
#[derive(Clone, Copy, Debug, PartialEq, Eq, Structural)]
pub enum PlacementGroupState {
    Staging,
    Staged,
    Starting,
    Running,
    Degraded,
    Stopping,
    Stopped,
    Recovering,
    Removing,
    Removed,
    Failed,
}

/// One placement group.
#[derive(Debug)]
pub struct PlacementGroup {
    pub placement_group_id: PlacementGroupId,
    pub service_id: ModelServiceId,
    pub runtime: RuntimeIdentity,
    pub state: PlacementGroupState,
}

/// What one [`PlacementGroup`] holds.
pub struct PlacementGroupView {
    pub placement_group_id: PlacementGroupId,
    pub service_id: ModelServiceId,
    pub runtime: RuntimeIdentityView,
    pub state: PlacementGroupState,
}

impl View for PlacementGroup {
    type V = PlacementGroupView;

    open spec fn view(&self) -> PlacementGroupView {
        PlacementGroupView {
            placement_group_id: self.placement_group_id,
            service_id: self.service_id,
            runtime: self.runtime@,
            state: self.state,
        }
    }
}

impl Valued for PlacementGroup {
    fn copy(&self) -> (copy: Self) {
        PlacementGroup {
            placement_group_id: self.placement_group_id,
            service_id: self.service_id,
            runtime: self.runtime.copy(),
            state: self.state,
        }
    }

    fn same(&self, other: &Self) -> (same: bool) {
        self.placement_group_id == other.placement_group_id
            && self.service_id == other.service_id
            && self.runtime.same(&other.runtime)
            && self.state == other.state
    }
}

/// The runtime installation that one node runs for a group.
#[derive(Clone, Copy, Debug, PartialEq, Eq, Structural)]
pub struct PlacementAssignment {
    pub node_id: NodeId,
    pub runtime_installation_id: RuntimeInstallationId,
}

impl View for PlacementAssignment {
    type V = PlacementAssignment;

    open spec fn view(&self) -> PlacementAssignment {
        *self
    }
}

impl Valued for PlacementAssignment {
    fn copy(&self) -> (copy: Self) {
        *self
    }

    fn same(&self, other: &Self) -> (same: bool) {
        *self == *other
    }
}

/// One placement group with its assignments.
#[derive(Debug)]
pub struct PlacementRecord {
    pub group: PlacementGroup,
    pub placements: Vec<PlacementAssignment>,
}

/// What one [`PlacementRecord`] holds.
pub struct PlacementRecordView {
    pub group: PlacementGroupView,
    pub placements: Seq<PlacementAssignment>,
}

impl View for PlacementRecord {
    type V = PlacementRecordView;

    open spec fn view(&self) -> PlacementRecordView {
        PlacementRecordView {
            group: self.group@,
            placements: views(self.placements@),
        }
    }
}

impl Valued for PlacementRecord {
    fn copy(&self) -> (copy: Self) {
        PlacementRecord {
            group: self.group.copy(),
            placements: copy_all(&self.placements),
        }
    }

    fn same(&self, other: &Self) -> (same: bool) {
        self.group.same(&other.group)
            && same_all(&self.placements, &other.placements)
    }
}

/// The interconnect between the devices of one group.
#[derive(Clone, Copy, Debug, PartialEq, Eq, Structural)]
pub enum InterconnectKind {
    Any,
}

/// What one group asks of its interconnect: the kind, whether it is insisted upon, and two lower
/// bounds. What the bounds measure rests with the placement service; this library asks for none.
#[derive(Clone, Copy, Debug, PartialEq, Eq, Structural)]
pub struct InterconnectRequirement {
    pub kind: InterconnectKind,
    pub required: bool,
    pub first_minimum: u64,
    pub second_minimum: u64,
}

impl InterconnectRequirement {
    /// Any interconnect will do.
    pub open spec fn unconstrained() -> InterconnectRequirement {
        InterconnectRequirement {
            kind: InterconnectKind::Any,
            required: false,
            first_minimum: 0,
            second_minimum: 0,
        }
    }

    /// Accepts any interconnect.
    pub fn any() -> (requirement: InterconnectRequirement)
        ensures
            requirement == InterconnectRequirement::unconstrained(),
    {
        InterconnectRequirement {
            kind: InterconnectKind::Any,
            required: false,
            first_minimum: 0,
            second_minimum: 0,
        }
    }
}

/// What one group may serve at once.
#[derive(Clone, Copy, Debug, PartialEq, Eq, Structural)]
pub struct PlacementGroupCapacity {
    pub max_connections: u32,
    pub max_active_requests: u32,
    pub max_context_tokens: u64,
    pub interconnect: InterconnectRequirement,
}

/// A contiguous range of ports.
#[derive(Clone, Copy, Debug, PartialEq, Eq, Structural)]
pub struct PortRange {
    pub first: u16,
    pub count: u16,
}

/// A port range is nonempty, does not start at zero and ends at the last port at most; that rule is
/// this library's own choice.
pub open spec fn port_range_valid(first: u16, count: u16) -> bool {
    first > 0 && count > 0 && first + count <= 65536
}

impl PortRange {
    /// Creates one valid port range.
    pub fn new(first: u16, count: u16) -> (result: Result<PortRange, InterfaceError>)
        ensures
            result == (if port_range_valid(first, count) {
                Ok(PortRange { first, count })
            } else {
                Err(InterfaceError::InvalidService)
            }),
    {
        if first == 0 || count == 0 || first as u32 + count as u32 > 65536 {
            return Err(InterfaceError::InvalidService);
        }
        Ok(PortRange { first, count })
    }
}

/// One task of a placement request.
#[derive(Debug)]
pub struct PlacementTask {
    pub task_id: TaskId,
    pub device_count: u16,
    pub port_count: u16,
}

/// What one [`PlacementTask`] holds.
pub struct PlacementTaskView {
    pub task_id: Seq<char>,
    pub device_count: u16,
    pub port_count: u16,
}

impl View for PlacementTask {
    type V = PlacementTaskView;

    open spec fn view(&self) -> PlacementTaskView {
        PlacementTaskView {
            task_id: self.task_id@,
            device_count: self.device_count,
            port_count: self.port_count,
        }
    }
}

impl Valued for PlacementTask {
    fn copy(&self) -> (copy: Self) {
        PlacementTask {
            task_id: self.task_id.copy(),
            device_count: self.device_count,
            port_count: self.port_count,
        }
    }

    fn same(&self, other: &Self) -> (same: bool) {
        self.task_id.same(&other.task_id)
            && self.device_count == other.device_count
            && self.port_count == other.port_count
    }
}

/// What one node offers to a placement request, without any of the placement service's optional
/// extras.
#[derive(Debug)]
pub struct PlacementNodeResources {
    pub node_id: NodeId,
    pub runtime_installation_id: RuntimeInstallationId,
    pub observation_id: HardwareObservationId,
    pub boot_id: BootId,
    pub observed_at: UnixMilliseconds,
    pub control_address: NodeAddress,
    pub device_ids: Vec<DeviceId>,
    pub ports: PortRange,
}

/// What one [`PlacementNodeResources`] holds.
pub struct PlacementNodeResourcesView {
    pub node_id: NodeId,
    pub runtime_installation_id: RuntimeInstallationId,
    pub observation_id: HardwareObservationId,
    pub boot_id: Seq<char>,
    pub observed_at: UnixMilliseconds,
    pub control_address: Seq<char>,
    pub device_ids: Seq<Seq<char>>,
    pub ports: PortRange,
}

impl View for PlacementNodeResources {
    type V = PlacementNodeResourcesView;

    open spec fn view(&self) -> PlacementNodeResourcesView {
        PlacementNodeResourcesView {
            node_id: self.node_id,
            runtime_installation_id: self.runtime_installation_id,
            observation_id: self.observation_id,
            boot_id: self.boot_id@,
            observed_at: self.observed_at,
            control_address: self.control_address@,
            device_ids: views(self.device_ids@),
            ports: self.ports,
        }
    }
}

impl Valued for PlacementNodeResources {
    fn copy(&self) -> (copy: Self) {
        PlacementNodeResources {
            node_id: self.node_id,
            runtime_installation_id: self.runtime_installation_id,
            observation_id: self.observation_id,
            boot_id: self.boot_id.copy(),
            observed_at: self.observed_at,
            control_address: self.control_address.copy(),
            device_ids: copy_all(&self.device_ids),
            ports: self.ports,
        }
    }

    fn same(&self, other: &Self) -> (same: bool) {
        self.node_id == other.node_id
            && self.runtime_installation_id == other.runtime_installation_id
            && self.observation_id == other.observation_id
            && self.boot_id.same(&other.boot_id)
            && self.observed_at == other.observed_at
            && self.control_address.same(&other.control_address)
            && same_all(&self.device_ids, &other.device_ids)
            && self.ports == other.ports
    }
}

/// One complete request to stage a placement group, without any of the placement service's optional
/// extras.
#[derive(Debug)]
pub struct PlacementRequest {
    pub placement_group_id: PlacementGroupId,
    pub service_id: ModelServiceId,
    pub runtime: RuntimeIdentity,
    pub capacity: PlacementGroupCapacity,
    pub tasks: Vec<PlacementTask>,
    pub nodes: Vec<PlacementNodeResources>,
    pub primary_task_id: TaskId,
    pub primary_node_id: NodeId,
    pub startup_order: Vec<TaskId>,
}

/// What one [`PlacementRequest`] holds.
pub struct PlacementRequestView {
    pub placement_group_id: PlacementGroupId,
    pub service_id: ModelServiceId,
    pub runtime: RuntimeIdentityView,
    pub capacity: PlacementGroupCapacity,
    pub tasks: Seq<PlacementTaskView>,
    pub nodes: Seq<PlacementNodeResourcesView>,
    pub primary_task_id: Seq<char>,
    pub primary_node_id: NodeId,
    pub startup_order: Seq<Seq<char>>,
}

impl View for PlacementRequest {
    type V = PlacementRequestView;

    open spec fn view(&self) -> PlacementRequestView {
        PlacementRequestView {
            placement_group_id: self.placement_group_id,
            service_id: self.service_id,
            runtime: self.runtime@,
            capacity: self.capacity,
            tasks: views(self.tasks@),
            nodes: views(self.nodes@),
            primary_task_id: self.primary_task_id@,
            primary_node_id: self.primary_node_id,
            startup_order: views(self.startup_order@),
        }
    }
}

impl Valued for PlacementRequest {
    fn copy(&self) -> (copy: Self) {
        PlacementRequest {
            placement_group_id: self.placement_group_id,
            service_id: self.service_id,
            runtime: self.runtime.copy(),
            capacity: self.capacity,
            tasks: copy_all(&self.tasks),
            nodes: copy_all(&self.nodes),
            primary_task_id: self.primary_task_id.copy(),
            primary_node_id: self.primary_node_id,
            startup_order: copy_all(&self.startup_order),
        }
    }

    fn same(&self, other: &Self) -> (same: bool) {
        self.placement_group_id == other.placement_group_id
            && self.service_id == other.service_id
            && self.runtime.same(&other.runtime)
            && self.capacity == other.capacity
            && same_all(&self.tasks, &other.tasks)
            && same_all(&self.nodes, &other.nodes)
            && self.primary_task_id.same(&other.primary_task_id)
            && self.primary_node_id == other.primary_node_id
            && same_all(&self.startup_order, &other.startup_order)
    }
}

/// One failure of a placement lifecycle call.
#[derive(Clone, Copy, Debug, PartialEq, Eq, Structural)]
pub enum PlacementError {
    ExecutionUnavailable,
    Other { code: u32 },
}

/// One bounded read of opaque runtime logs.
#[derive(Debug)]
pub struct PlacementLogReadRequest {
    pub placement_group_id: PlacementGroupId,
    pub cursor: Option<PlacementLogCursor>,
    pub maximum_lines: u32,
    pub maximum_bytes: usize,
    pub wait: TimeSpan,
}

/// What one [`PlacementLogReadRequest`] holds.
pub struct PlacementLogReadRequestView {
    pub placement_group_id: PlacementGroupId,
    pub cursor: Option<Seq<char>>,
    pub maximum_lines: u32,
    pub maximum_bytes: usize,
    pub wait: TimeSpan,
}

impl View for PlacementLogReadRequest {
    type V = PlacementLogReadRequestView;

    open spec fn view(&self) -> PlacementLogReadRequestView {
        PlacementLogReadRequestView {
            placement_group_id: self.placement_group_id,
            cursor: viewed(self.cursor),
            maximum_lines: self.maximum_lines,
            maximum_bytes: self.maximum_bytes,
            wait: self.wait,
        }
    }
}

impl Valued for PlacementLogReadRequest {
    fn copy(&self) -> (copy: Self) {
        PlacementLogReadRequest {
            placement_group_id: self.placement_group_id,
            cursor: copy_optional(&self.cursor),
            maximum_lines: self.maximum_lines,
            maximum_bytes: self.maximum_bytes,
            wait: self.wait,
        }
    }

    fn same(&self, other: &Self) -> (same: bool) {
        self.placement_group_id == other.placement_group_id
            && same_optional(&self.cursor, &other.cursor)
            && self.maximum_lines == other.maximum_lines
            && self.maximum_bytes == other.maximum_bytes
            && self.wait == other.wait
    }
}

/// One batch of opaque runtime logs.
#[derive(Debug)]
pub struct PlacementLogBatch {
    pub placement_group_id: PlacementGroupId,
    pub cursor: Option<PlacementLogCursor>,
    pub bytes: Vec<u8>,
}

/// What one [`PlacementLogBatch`] holds.
pub struct PlacementLogBatchView {
    pub placement_group_id: PlacementGroupId,
    pub cursor: Option<Seq<char>>,
    pub bytes: Seq<u8>,
}

impl View for PlacementLogBatch {
    type V = PlacementLogBatchView;

    open spec fn view(&self) -> PlacementLogBatchView {
        PlacementLogBatchView {
            placement_group_id: self.placement_group_id,
            cursor: viewed(self.cursor),
            bytes: self.bytes@,
        }
    }
}

impl Valued for PlacementLogBatch {
    fn copy(&self) -> (copy: Self) {
        PlacementLogBatch {
            placement_group_id: self.placement_group_id,
            cursor: copy_optional(&self.cursor),
            bytes: copy_bytes(&self.bytes),
        }
    }

    fn same(&self, other: &Self) -> (same: bool) {
        self.placement_group_id == other.placement_group_id
            && same_optional(&self.cursor, &other.cursor)
            && same_bytes(&self.bytes, &other.bytes)
    }
}

} // verus!
