//! The private control surface: authorization, routing and the uninstall lease.

use vstd::prelude::*;

use crate::database::NodeManagerError;
use crate::entity::{ModelServiceDesiredState, Node, NodeRole, NodeState};
use crate::identity::{
    clone_ids, contains_id, increasing_ids, same_ids, strictly_increasing, ControllerId,
    CredentialId, DisplayName, ModelServiceId, NodeId, OperationId, PairingInviteId,
    PlacementGroupId, RuntimeCandidateId, RuntimeInstallationId, Sha256Digest, TargetId,
    UnixMilliseconds,
};
use crate::node_manager::NodeTransition;
use crate::node_model_contract::{
    NodeModelCommandIdentity, NodeModelError, NodeModelInstallRequest, NodeModelRemovalRetention,
    NodeModelRemovalSelection, NodeModelRemoveRequest, NodeModelRuntimeLogRequest,
    NodeModelServiceSummary, NodeModelServiceSummaryView, NodeModelUpdateRequest,
};
use crate::node_pairing_activation_authority::{
    NodePairedChildActivationRequest, NodePairedMainRestorationRequest,
    NodePairingActivationAuthorityError,
};
use crate::node_pairing_api::{
    NodePairingApiError, NodePairingApproveRequest, NodePairingEnrollRequest,
    NodePairingOpenRequest,
};
use crate::sequence::{copy_all, outcome, same_all, views, Valued};

verus! {

/// The most targets that one teardown may have.
pub const MAXIMUM_UNINSTALL_TEARDOWN_TARGETS: usize = 4096;

/// Identifies one private API capability without coupling to key storage.
#[derive(Clone, Copy, Debug, PartialEq, Eq, Hash, Structural)]
pub enum NodePrivateAction {
    ReadLocalNode,
    ReadNodes,
    ReadNode,
    ReadHardware,
    ReadHostProjection,
    ReadHostInventory,
    ReadStorage,
    CleanStorage,
    ReadCatalog,
    ReadCompatibleTargets,
    EnrollChild,
    TransitionChild,
    ReadOutbox,
    AcknowledgeOutbox,
    OpenPairing,
    EnrollPairing,
    ApprovePairing,
    ReadPairingStatus,
    PreviewBenchmark,
    StartBenchmark,
    ReadActiveBenchmark,
    ReadBenchmark,
    StopBenchmark,
    AddController,
    ReadControllers,
    RevokeController,
    CreateApiKey,
    ReadApiKeys,
    ReadApiKey,
    UpdateApiKeyPolicy,
    RotateApiKey,
    RevokeApiKey,
    OpenCommandAudit,
    CompleteCommandAudit,
    ReadAuditEvents,
    ReadAuditEvent,
    VerifyAudit,
    ExportAudit,
    ListModels,
    InstallModel,
    PauseModel,
    ResumeModel,
    RestartModel,
    RecoverModel,
    RemoveModel,
    RollbackModel,
    PreviewRollbackModel,
    ReadModelLogs,
    ReadModelRuntimeLogs,
    CheckCoreUpdate,
    UpdateCore,
    UpdateModel,
    ReadExposure,
    EnableExposure,
    DisableExposure,
    ReadRuntimeInstallationIds,
    RemoveRuntimeInstallation,
    Uninstall,
    ActivatePairedChild,
    RestorePairedMain,
    Gateway,
}

/// The service that answers a request.
#[derive(Clone, Copy, Debug, PartialEq, Eq, Structural)]
pub enum NodePrivateService {
    Manager,
    HostProjection,
    HostInventory,
    Storage,
    Catalog,
    Pairing,
    Benchmark,
    Authentication,
    CommandAudit,
    Audit,
    Model,
    CoreUpdate,
    Exposure,
    RuntimeMaintenance,
    PairingActivation,
    Gateway,
}

/// What the answer to a request holds.
#[derive(Clone, Copy, Debug, PartialEq, Eq, Structural)]
pub enum NodePrivateResponseKind {
    LocalNode,
    Nodes,
    NodeChanged,
    HardwareObservation,
    HostProjection,
    HostInventory,
    StorageSnapshot,
    StorageCleaned,
    Catalog,
    CompatibleTargets,
    PendingOutbox,
    OutboxAcknowledged,
    PairingInvitation,
    PairingEnrollment,
    PairingStatus,
    BenchmarkPlan,
    BenchmarkChanged,
    BenchmarkRecord,
    ControllerEnrollment,
    Controllers,
    Controller,
    ApiKeyIssued,
    ApiKeys,
    ApiKey,
    CommandAuditOpened,
    CommandAuditCompleted,
    AuditEvents,
    AuditEvent,
    AuditVerification,
    AuditExport,
    ModelServices,
    ModelChanged,
    ModelRollbackPreview,
    ModelLogs,
    ModelRuntimeLogs,
    CoreUpdateCheck,
    CoreUpdated,
    ModelUpdated,
    Exposure,
    RuntimeInstallationIds,
    RuntimeInstallationRemoved,
    PairingAuthorityChanged,
    Gateway,
    UninstallLease,
}

/// Whether runtime removal keeps model files.
#[derive(Clone, Copy, Debug, PartialEq, Eq, Structural)]
pub enum NodeRuntimeModelRetention {
    Remove,
    Preserve,
}

/// The retention that one model-service policy stands for.
pub open spec fn runtime_retention(
    retention: NodeModelRemovalRetention,
) -> NodeRuntimeModelRetention {
    match retention {
        NodeModelRemovalRetention::RemoveUnreferencedRuntimes => NodeRuntimeModelRetention::Remove,
        NodeModelRemovalRetention::PreserveModels => NodeRuntimeModelRetention::Preserve,
    }
}

/// Converts the model-service policy into the exact runtime retention contract.
pub fn runtime_model_retention(
    retention: NodeModelRemovalRetention,
) -> (converted: NodeRuntimeModelRetention)
    ensures
        converted == runtime_retention(retention),
{
    match retention {
        NodeModelRemovalRetention::RemoveUnreferencedRuntimes => NodeRuntimeModelRetention::Remove,
        NodeModelRemovalRetention::PreserveModels => NodeRuntimeModelRetention::Preserve,
    }
}

/// One request to the local Gateway capability surface; the Gateway alone reads its payload.
pub enum NodeGatewayRequest<O> {
    AuthorizeInference(O),
    AuthorizeInboundRelay(O),
    Other(O),
}

/// Carries only local uninstall operations that must present the exact active lease.
pub enum NodeUninstallRequest {
    Begin { session_id: Sha256Digest, model_retention: NodeRuntimeModelRetention },
    StopBenchmark { session_id: Sha256Digest, job_id: OperationId },
    DisableExposure { session_id: Sha256Digest },
    RemoveModel { session_id: Sha256Digest, request: NodeModelRemoveRequest },
    RemoveRuntimeInstallation {
        session_id: Sha256Digest,
        installation_id: RuntimeInstallationId,
        model_retention: NodeRuntimeModelRetention,
    },
    FinalizeRuntimeArtifacts {
        session_id: Sha256Digest,
        model_retention: NodeRuntimeModelRetention,
    },
    Cancel { session_id: Sha256Digest },
}

/// The lease that one uninstall operation presents.
pub open spec fn lease_presented(request: NodeUninstallRequest) -> Sha256Digest {
    match request {
        NodeUninstallRequest::Begin { session_id, .. } => session_id,
        NodeUninstallRequest::StopBenchmark { session_id, .. } => session_id,
        NodeUninstallRequest::DisableExposure { session_id } => session_id,
        NodeUninstallRequest::RemoveModel { session_id, .. } => session_id,
        NodeUninstallRequest::RemoveRuntimeInstallation { session_id, .. } => session_id,
        NodeUninstallRequest::FinalizeRuntimeArtifacts { session_id, .. } => session_id,
        NodeUninstallRequest::Cancel { session_id } => session_id,
    }
}

impl NodeUninstallRequest {
    /// Returns the exact lease identity required by every uninstall operation.
    pub fn session_id(&self) -> (session_id: &Sha256Digest)
        ensures
            *session_id == lease_presented(*self),
    {
        match self {
            NodeUninstallRequest::Begin { session_id, .. } => session_id,
            NodeUninstallRequest::StopBenchmark { session_id, .. } => session_id,
            NodeUninstallRequest::DisableExposure { session_id } => session_id,
            NodeUninstallRequest::RemoveModel { session_id, .. } => session_id,
            NodeUninstallRequest::RemoveRuntimeInstallation { session_id, .. } => session_id,
            NodeUninstallRequest::FinalizeRuntimeArtifacts { session_id, .. } => session_id,
            NodeUninstallRequest::Cancel { session_id } => session_id,
        }
    }
}

/// Describes one typed private control request before transport serialization. A payload of type
/// `O` is handed on untouched: the service that answers the request alone reads it.
pub enum NodePrivateRequest<O> {
    ReadLocalNode,
    ReadNodes,
    ReadNode { node_id: NodeId },
    ReadHardware { node_id: NodeId },
    ReadHostProjection { node_id: NodeId },
    ReadHostInventory,
    ReadStorage,
    CleanStorage(O),
    ReadCatalog(O),
    ReadCompatibleTargets { node_id: NodeId, catalog_source: String },
    EnrollChild { idempotency_key: String, child: Node },
    TransitionChild {
        idempotency_key: String,
        node_id: NodeId,
        expected_revision: u64,
        transition: NodeTransition,
        updated_at: UnixMilliseconds,
    },
    ReadPendingOutbox,
    AcknowledgeOutbox {
        idempotency_key: String,
        event_id: Sha256Digest,
        expected_revision: u64,
        acknowledged_at: UnixMilliseconds,
    },
    OpenPairing(NodePairingOpenRequest),
    EnrollPairing(NodePairingEnrollRequest),
    ApprovePairing(NodePairingApproveRequest),
    ReadPairingStatus { invite_id: PairingInviteId },
    PreviewBenchmark { selection: O },
    StartBenchmark { idempotency_key: String, selection: O },
    StartBenchmarkVerification {
        idempotency_key: String,
        pull_request_url: String,
        runtime_candidate: Option<RuntimeCandidateId>,
    },
    ReadActiveBenchmark,
    ReadBenchmark { job_id: OperationId },
    StopBenchmark { job_id: OperationId },
    AddController { candidate: O, role: O },
    ReadControllers,
    RevokeController { selector: String },
    CreateApiKey { name: DisplayName, policy: O },
    ReadApiKeys,
    ReadApiKey { selector: String },
    UpdateApiKeyPolicy { selector: String, update: O },
    RotateApiKey { selector: String },
    RevokeApiKey { selector: String },
    OpenCommandAudit { local_role: NodeRole, audit: O },
    CompleteCommandAudit(O),
    ReadAuditEvents { limit: usize },
    ReadAuditEvent { audit_event_id: O },
    VerifyAudit,
    ExportAudit,
    ListModels,
    InstallModel(NodeModelInstallRequest),
    PauseModel { identity: NodeModelCommandIdentity, service_id: ModelServiceId },
    ResumeModel { identity: NodeModelCommandIdentity, service_id: ModelServiceId },
    RestartModel { identity: NodeModelCommandIdentity, service_id: ModelServiceId },
    RecoverModel { identity: NodeModelCommandIdentity, service_id: ModelServiceId },
    RemoveModel(NodeModelRemoveRequest),
    RollbackModel {
        identity: NodeModelCommandIdentity,
        service_id: ModelServiceId,
        target_id: Option<TargetId>,
    },
    PreviewRollbackModel { service_id: ModelServiceId, target_id: Option<TargetId> },
    ReadModelLogs { service_id: ModelServiceId },
    ReadModelRuntimeLogs(NodeModelRuntimeLogRequest),
    CheckCoreUpdate { requested_version: Option<O> },
    UpdateCore { idempotency_key: String, requested_version: Option<O> },
    UpdateModel(NodeModelUpdateRequest),
    ReadExposure,
    EnableExposure,
    DisableExposure,
    ReadRuntimeInstallationIds,
    RemoveRuntimeInstallation {
        installation_id: RuntimeInstallationId,
        model_retention: NodeRuntimeModelRetention,
    },
    Uninstall(NodeUninstallRequest),
    ActivatePairedChild(NodePairedChildActivationRequest),
    RestorePairedMain(NodePairedMainRestorationRequest),
    Gateway(NodeGatewayRequest<O>),
}

/// The capability that one request needs.
pub open spec fn action_of<O>(request: NodePrivateRequest<O>) -> NodePrivateAction {
    match request {
        NodePrivateRequest::ReadLocalNode => NodePrivateAction::ReadLocalNode,
        NodePrivateRequest::ReadNodes => NodePrivateAction::ReadNodes,
        NodePrivateRequest::ReadNode { .. } => NodePrivateAction::ReadNode,
        NodePrivateRequest::ReadHardware { .. } => NodePrivateAction::ReadHardware,
        NodePrivateRequest::ReadHostProjection { .. } => NodePrivateAction::ReadHostProjection,
        NodePrivateRequest::ReadHostInventory => NodePrivateAction::ReadHostInventory,
        NodePrivateRequest::ReadStorage => NodePrivateAction::ReadStorage,
        NodePrivateRequest::CleanStorage(_) => NodePrivateAction::CleanStorage,
        NodePrivateRequest::ReadCatalog(_) => NodePrivateAction::ReadCatalog,
        NodePrivateRequest::ReadCompatibleTargets { .. } => {
            NodePrivateAction::ReadCompatibleTargets
        },
        NodePrivateRequest::EnrollChild { .. } => NodePrivateAction::EnrollChild,
        NodePrivateRequest::TransitionChild { .. } => NodePrivateAction::TransitionChild,
        NodePrivateRequest::ReadPendingOutbox => NodePrivateAction::ReadOutbox,
        NodePrivateRequest::AcknowledgeOutbox { .. } => NodePrivateAction::AcknowledgeOutbox,
        NodePrivateRequest::OpenPairing(_) => NodePrivateAction::OpenPairing,
        NodePrivateRequest::EnrollPairing(_) => NodePrivateAction::EnrollPairing,
        NodePrivateRequest::ApprovePairing(_) => NodePrivateAction::ApprovePairing,
        NodePrivateRequest::ReadPairingStatus { .. } => NodePrivateAction::ReadPairingStatus,
        NodePrivateRequest::PreviewBenchmark { .. } => NodePrivateAction::PreviewBenchmark,
        NodePrivateRequest::StartBenchmark { .. } => NodePrivateAction::StartBenchmark,
        NodePrivateRequest::StartBenchmarkVerification { .. } => NodePrivateAction::StartBenchmark,
        NodePrivateRequest::ReadActiveBenchmark => NodePrivateAction::ReadActiveBenchmark,
        NodePrivateRequest::ReadBenchmark { .. } => NodePrivateAction::ReadBenchmark,
        NodePrivateRequest::StopBenchmark { .. } => NodePrivateAction::StopBenchmark,
        NodePrivateRequest::AddController { .. } => NodePrivateAction::AddController,
        NodePrivateRequest::ReadControllers => NodePrivateAction::ReadControllers,
        NodePrivateRequest::RevokeController { .. } => NodePrivateAction::RevokeController,
        NodePrivateRequest::CreateApiKey { .. } => NodePrivateAction::CreateApiKey,
        NodePrivateRequest::ReadApiKeys => NodePrivateAction::ReadApiKeys,
        NodePrivateRequest::ReadApiKey { .. } => NodePrivateAction::ReadApiKey,
        NodePrivateRequest::UpdateApiKeyPolicy { .. } => NodePrivateAction::UpdateApiKeyPolicy,
        NodePrivateRequest::RotateApiKey { .. } => NodePrivateAction::RotateApiKey,
        NodePrivateRequest::RevokeApiKey { .. } => NodePrivateAction::RevokeApiKey,
        NodePrivateRequest::OpenCommandAudit { .. } => NodePrivateAction::OpenCommandAudit,
        NodePrivateRequest::CompleteCommandAudit(_) => NodePrivateAction::CompleteCommandAudit,
        NodePrivateRequest::ReadAuditEvents { .. } => NodePrivateAction::ReadAuditEvents,
        NodePrivateRequest::ReadAuditEvent { .. } => NodePrivateAction::ReadAuditEvent,
        NodePrivateRequest::VerifyAudit => NodePrivateAction::VerifyAudit,
        NodePrivateRequest::ExportAudit => NodePrivateAction::ExportAudit,
        NodePrivateRequest::ListModels => NodePrivateAction::ListModels,
        NodePrivateRequest::InstallModel(_) => NodePrivateAction::InstallModel,
        NodePrivateRequest::PauseModel { .. } => NodePrivateAction::PauseModel,
        NodePrivateRequest::ResumeModel { .. } => NodePrivateAction::ResumeModel,
        NodePrivateRequest::RestartModel { .. } => NodePrivateAction::RestartModel,
        NodePrivateRequest::RecoverModel { .. } => NodePrivateAction::RecoverModel,
        NodePrivateRequest::RemoveModel(_) => NodePrivateAction::RemoveModel,
        NodePrivateRequest::RollbackModel { .. } => NodePrivateAction::RollbackModel,
        NodePrivateRequest::PreviewRollbackModel { .. } => NodePrivateAction::PreviewRollbackModel,
        NodePrivateRequest::ReadModelLogs { .. } => NodePrivateAction::ReadModelLogs,
        NodePrivateRequest::ReadModelRuntimeLogs(_) => NodePrivateAction::ReadModelRuntimeLogs,
        NodePrivateRequest::CheckCoreUpdate { .. } => NodePrivateAction::CheckCoreUpdate,
        NodePrivateRequest::UpdateCore { .. } => NodePrivateAction::UpdateCore,
        NodePrivateRequest::UpdateModel(_) => NodePrivateAction::UpdateModel,
        NodePrivateRequest::ReadExposure => NodePrivateAction::ReadExposure,
        NodePrivateRequest::EnableExposure => NodePrivateAction::EnableExposure,
        NodePrivateRequest::DisableExposure => NodePrivateAction::DisableExposure,
        NodePrivateRequest::ReadRuntimeInstallationIds => {
            NodePrivateAction::ReadRuntimeInstallationIds
        },
        NodePrivateRequest::RemoveRuntimeInstallation { .. } => {
            NodePrivateAction::RemoveRuntimeInstallation
        },
        NodePrivateRequest::Uninstall(_) => NodePrivateAction::Uninstall,
        NodePrivateRequest::ActivatePairedChild(_) => NodePrivateAction::ActivatePairedChild,
        NodePrivateRequest::RestorePairedMain(_) => NodePrivateAction::RestorePairedMain,
        NodePrivateRequest::Gateway(_) => NodePrivateAction::Gateway,
    }
}

/// A request that only the owner of this machine may make.
pub open spec fn local_only<O>(request: NodePrivateRequest<O>) -> bool {
    match request {
        NodePrivateRequest::ReadHostInventory
        | NodePrivateRequest::ReadStorage
        | NodePrivateRequest::CleanStorage(_)
        | NodePrivateRequest::AddController { .. }
        | NodePrivateRequest::ReadControllers
        | NodePrivateRequest::RevokeController { .. }
        | NodePrivateRequest::OpenCommandAudit { .. }
        | NodePrivateRequest::CompleteCommandAudit(_)
        | NodePrivateRequest::ReadAuditEvents { .. }
        | NodePrivateRequest::ReadAuditEvent { .. }
        | NodePrivateRequest::VerifyAudit
        | NodePrivateRequest::ExportAudit
        | NodePrivateRequest::CheckCoreUpdate { .. }
        | NodePrivateRequest::UpdateCore { .. }
        | NodePrivateRequest::UpdateModel(_)
        | NodePrivateRequest::ReadExposure
        | NodePrivateRequest::EnableExposure
        | NodePrivateRequest::DisableExposure
        | NodePrivateRequest::ReadRuntimeInstallationIds
        | NodePrivateRequest::RemoveRuntimeInstallation { .. }
        | NodePrivateRequest::Uninstall(_)
        | NodePrivateRequest::ActivatePairedChild(_)
        | NodePrivateRequest::RestorePairedMain(_)
        | NodePrivateRequest::Gateway(_) => true,
        _ => false,
    }
}

/// A request that can create or change what an uninstall tears down.
pub open spec fn conflicting<O>(request: NodePrivateRequest<O>) -> bool {
    match request {
        NodePrivateRequest::CleanStorage(_)
        | NodePrivateRequest::EnrollChild { .. }
        | NodePrivateRequest::TransitionChild { .. }
        | NodePrivateRequest::OpenPairing(_)
        | NodePrivateRequest::EnrollPairing(_)
        | NodePrivateRequest::ApprovePairing(_)
        | NodePrivateRequest::StartBenchmark { .. }
        | NodePrivateRequest::StartBenchmarkVerification { .. }
        | NodePrivateRequest::StopBenchmark { .. }
        | NodePrivateRequest::InstallModel(_)
        | NodePrivateRequest::PauseModel { .. }
        | NodePrivateRequest::ResumeModel { .. }
        | NodePrivateRequest::RestartModel { .. }
        | NodePrivateRequest::RecoverModel { .. }
        | NodePrivateRequest::RemoveModel(_)
        | NodePrivateRequest::RollbackModel { .. }
        | NodePrivateRequest::UpdateCore { .. }
        | NodePrivateRequest::UpdateModel(_)
        | NodePrivateRequest::EnableExposure
        | NodePrivateRequest::DisableExposure
        | NodePrivateRequest::RemoveRuntimeInstallation { .. }
        | NodePrivateRequest::ActivatePairedChild(_)
        | NodePrivateRequest::RestorePairedMain(_)
        | NodePrivateRequest::Gateway(NodeGatewayRequest::AuthorizeInference(_))
        | NodePrivateRequest::Gateway(NodeGatewayRequest::AuthorizeInboundRelay(_)) => true,
        _ => false,
    }
}

/// What one request requires of the local node.
#[derive(Clone, Copy, Debug, PartialEq, Eq, Structural)]
pub enum NodePrivateRequirement {
    /// Nothing.
    Open,
    /// An active main.
    ActiveMain,
    /// An active node of the role that the command was meant for.
    ActiveRole { role: NodeRole },
    /// Its role, whatever it is.
    AnyRole,
}

/// What one request requires of the local node.
pub open spec fn requirement_of<O>(request: NodePrivateRequest<O>) -> NodePrivateRequirement {
    match request {
        NodePrivateRequest::OpenPairing(_)
        | NodePrivateRequest::EnrollPairing(_)
        | NodePrivateRequest::ApprovePairing(_)
        | NodePrivateRequest::ReadPairingStatus { .. }
        | NodePrivateRequest::PreviewBenchmark { .. }
        | NodePrivateRequest::StartBenchmark { .. }
        | NodePrivateRequest::StartBenchmarkVerification { .. }
        | NodePrivateRequest::ReadActiveBenchmark
        | NodePrivateRequest::ReadBenchmark { .. }
        | NodePrivateRequest::StopBenchmark { .. }
        | NodePrivateRequest::AddController { .. }
        | NodePrivateRequest::ReadControllers
        | NodePrivateRequest::RevokeController { .. }
        | NodePrivateRequest::CreateApiKey { .. }
        | NodePrivateRequest::ReadApiKeys
        | NodePrivateRequest::ReadApiKey { .. }
        | NodePrivateRequest::UpdateApiKeyPolicy { .. }
        | NodePrivateRequest::RotateApiKey { .. }
        | NodePrivateRequest::RevokeApiKey { .. }
        | NodePrivateRequest::ReadAuditEvents { .. }
        | NodePrivateRequest::ReadAuditEvent { .. }
        | NodePrivateRequest::VerifyAudit
        | NodePrivateRequest::ExportAudit
        | NodePrivateRequest::InstallModel(_)
        | NodePrivateRequest::PauseModel { .. }
        | NodePrivateRequest::ResumeModel { .. }
        | NodePrivateRequest::RestartModel { .. }
        | NodePrivateRequest::RecoverModel { .. }
        | NodePrivateRequest::RemoveModel(_)
        | NodePrivateRequest::RollbackModel { .. }
        | NodePrivateRequest::UpdateModel(_)
        | NodePrivateRequest::ReadExposure
        | NodePrivateRequest::EnableExposure
        | NodePrivateRequest::DisableExposure => NodePrivateRequirement::ActiveMain,
        NodePrivateRequest::OpenCommandAudit { local_role, .. } => NodePrivateRequirement::ActiveRole { role: local_role },
        NodePrivateRequest::Gateway(_) => NodePrivateRequirement::AnyRole,
        _ => NodePrivateRequirement::Open,
    }
}

/// The service that answers one request; none answers the operations of the uninstall lease.
pub open spec fn service_of<O>(request: NodePrivateRequest<O>) -> Option<NodePrivateService> {
    match request {
        NodePrivateRequest::ReadLocalNode
        | NodePrivateRequest::ReadNodes
        | NodePrivateRequest::ReadNode { .. }
        | NodePrivateRequest::ReadHardware { .. }
        | NodePrivateRequest::EnrollChild { .. }
        | NodePrivateRequest::TransitionChild { .. }
        | NodePrivateRequest::ReadPendingOutbox
        | NodePrivateRequest::AcknowledgeOutbox { .. } => Some(
            NodePrivateService::Manager,
        ),
        NodePrivateRequest::ReadHostProjection { .. } => Some(
            NodePrivateService::HostProjection,
        ),
        NodePrivateRequest::ReadHostInventory => Some(
            NodePrivateService::HostInventory,
        ),
        NodePrivateRequest::ReadStorage
        | NodePrivateRequest::CleanStorage(_) => Some(
            NodePrivateService::Storage,
        ),
        NodePrivateRequest::ReadCatalog(_)
        | NodePrivateRequest::ReadCompatibleTargets { .. } => Some(
            NodePrivateService::Catalog,
        ),
        NodePrivateRequest::OpenPairing(_)
        | NodePrivateRequest::EnrollPairing(_)
        | NodePrivateRequest::ApprovePairing(_)
        | NodePrivateRequest::ReadPairingStatus { .. } => Some(
            NodePrivateService::Pairing,
        ),
        NodePrivateRequest::PreviewBenchmark { .. }
        | NodePrivateRequest::StartBenchmark { .. }
        | NodePrivateRequest::StartBenchmarkVerification { .. }
        | NodePrivateRequest::ReadActiveBenchmark
        | NodePrivateRequest::ReadBenchmark { .. }
        | NodePrivateRequest::StopBenchmark { .. } => Some(
            NodePrivateService::Benchmark,
        ),
        NodePrivateRequest::AddController { .. }
        | NodePrivateRequest::ReadControllers
        | NodePrivateRequest::RevokeController { .. }
        | NodePrivateRequest::CreateApiKey { .. }
        | NodePrivateRequest::ReadApiKeys
        | NodePrivateRequest::ReadApiKey { .. }
        | NodePrivateRequest::UpdateApiKeyPolicy { .. }
        | NodePrivateRequest::RotateApiKey { .. }
        | NodePrivateRequest::RevokeApiKey { .. } => Some(
            NodePrivateService::Authentication,
        ),
        NodePrivateRequest::OpenCommandAudit { .. }
        | NodePrivateRequest::CompleteCommandAudit(_) => Some(
            NodePrivateService::CommandAudit,
        ),
        NodePrivateRequest::ReadAuditEvents { .. }
        | NodePrivateRequest::ReadAuditEvent { .. }
        | NodePrivateRequest::VerifyAudit
        | NodePrivateRequest::ExportAudit => Some(
            NodePrivateService::Audit,
        ),
        NodePrivateRequest::ListModels
        | NodePrivateRequest::InstallModel(_)
        | NodePrivateRequest::PauseModel { .. }
        | NodePrivateRequest::ResumeModel { .. }
        | NodePrivateRequest::RestartModel { .. }
        | NodePrivateRequest::RecoverModel { .. }
        | NodePrivateRequest::RemoveModel(_)
        | NodePrivateRequest::RollbackModel { .. }
        | NodePrivateRequest::PreviewRollbackModel { .. }
        | NodePrivateRequest::ReadModelLogs { .. }
        | NodePrivateRequest::ReadModelRuntimeLogs(_)
        | NodePrivateRequest::UpdateModel(_) => Some(
            NodePrivateService::Model,
        ),
        NodePrivateRequest::CheckCoreUpdate { .. }
        | NodePrivateRequest::UpdateCore { .. } => Some(
            NodePrivateService::CoreUpdate,
        ),
        NodePrivateRequest::ReadExposure
        | NodePrivateRequest::EnableExposure
        | NodePrivateRequest::DisableExposure => Some(
            NodePrivateService::Exposure,
        ),
        NodePrivateRequest::ReadRuntimeInstallationIds
        | NodePrivateRequest::RemoveRuntimeInstallation { .. } => Some(
            NodePrivateService::RuntimeMaintenance,
        ),
        NodePrivateRequest::ActivatePairedChild(_)
        | NodePrivateRequest::RestorePairedMain(_) => Some(
            NodePrivateService::PairingActivation,
        ),
        NodePrivateRequest::Gateway(_) => Some(
            NodePrivateService::Gateway,
        ),
        NodePrivateRequest::Uninstall(_) => None,
    }
}

/// What the answer to one request holds.
pub open spec fn answer_of<O>(request: NodePrivateRequest<O>) -> NodePrivateResponseKind {
    match request {
        NodePrivateRequest::ReadLocalNode => {
            NodePrivateResponseKind::LocalNode
        },
        NodePrivateRequest::ReadNodes => {
            NodePrivateResponseKind::Nodes
        },
        NodePrivateRequest::ReadNode { .. }
        | NodePrivateRequest::EnrollChild { .. }
        | NodePrivateRequest::TransitionChild { .. } => {
            NodePrivateResponseKind::NodeChanged
        },
        NodePrivateRequest::ReadHardware { .. } => {
            NodePrivateResponseKind::HardwareObservation
        },
        NodePrivateRequest::ReadHostProjection { .. } => {
            NodePrivateResponseKind::HostProjection
        },
        NodePrivateRequest::ReadHostInventory => {
            NodePrivateResponseKind::HostInventory
        },
        NodePrivateRequest::ReadStorage => {
            NodePrivateResponseKind::StorageSnapshot
        },
        NodePrivateRequest::CleanStorage(_) => {
            NodePrivateResponseKind::StorageCleaned
        },
        NodePrivateRequest::ReadCatalog(_) => {
            NodePrivateResponseKind::Catalog
        },
        NodePrivateRequest::ReadCompatibleTargets { .. } => {
            NodePrivateResponseKind::CompatibleTargets
        },
        NodePrivateRequest::ReadPendingOutbox => {
            NodePrivateResponseKind::PendingOutbox
        },
        NodePrivateRequest::AcknowledgeOutbox { .. } => {
            NodePrivateResponseKind::OutboxAcknowledged
        },
        NodePrivateRequest::OpenPairing(_) => {
            NodePrivateResponseKind::PairingInvitation
        },
        NodePrivateRequest::EnrollPairing(_) => {
            NodePrivateResponseKind::PairingEnrollment
        },
        NodePrivateRequest::ApprovePairing(_)
        | NodePrivateRequest::ReadPairingStatus { .. } => {
            NodePrivateResponseKind::PairingStatus
        },
        NodePrivateRequest::PreviewBenchmark { .. } => {
            NodePrivateResponseKind::BenchmarkPlan
        },
        NodePrivateRequest::StartBenchmark { .. }
        | NodePrivateRequest::StartBenchmarkVerification { .. }
        | NodePrivateRequest::StopBenchmark { .. } => {
            NodePrivateResponseKind::BenchmarkChanged
        },
        NodePrivateRequest::ReadActiveBenchmark
        | NodePrivateRequest::ReadBenchmark { .. } => {
            NodePrivateResponseKind::BenchmarkRecord
        },
        NodePrivateRequest::AddController { .. } => {
            NodePrivateResponseKind::ControllerEnrollment
        },
        NodePrivateRequest::ReadControllers => {
            NodePrivateResponseKind::Controllers
        },
        NodePrivateRequest::RevokeController { .. } => {
            NodePrivateResponseKind::Controller
        },
        NodePrivateRequest::CreateApiKey { .. }
        | NodePrivateRequest::RotateApiKey { .. } => {
            NodePrivateResponseKind::ApiKeyIssued
        },
        NodePrivateRequest::ReadApiKeys => {
            NodePrivateResponseKind::ApiKeys
        },
        NodePrivateRequest::ReadApiKey { .. }
        | NodePrivateRequest::UpdateApiKeyPolicy { .. }
        | NodePrivateRequest::RevokeApiKey { .. } => {
            NodePrivateResponseKind::ApiKey
        },
        NodePrivateRequest::OpenCommandAudit { .. } => {
            NodePrivateResponseKind::CommandAuditOpened
        },
        NodePrivateRequest::CompleteCommandAudit(_) => {
            NodePrivateResponseKind::CommandAuditCompleted
        },
        NodePrivateRequest::ReadAuditEvents { .. } => {
            NodePrivateResponseKind::AuditEvents
        },
        NodePrivateRequest::ReadAuditEvent { .. } => {
            NodePrivateResponseKind::AuditEvent
        },
        NodePrivateRequest::VerifyAudit => {
            NodePrivateResponseKind::AuditVerification
        },
        NodePrivateRequest::ExportAudit => {
            NodePrivateResponseKind::AuditExport
        },
        NodePrivateRequest::ListModels => {
            NodePrivateResponseKind::ModelServices
        },
        NodePrivateRequest::InstallModel(_)
        | NodePrivateRequest::PauseModel { .. }
        | NodePrivateRequest::ResumeModel { .. }
        | NodePrivateRequest::RestartModel { .. }
        | NodePrivateRequest::RecoverModel { .. }
        | NodePrivateRequest::RemoveModel(_)
        | NodePrivateRequest::RollbackModel { .. } => {
            NodePrivateResponseKind::ModelChanged
        },
        NodePrivateRequest::PreviewRollbackModel { .. } => {
            NodePrivateResponseKind::ModelRollbackPreview
        },
        NodePrivateRequest::ReadModelLogs { .. } => {
            NodePrivateResponseKind::ModelLogs
        },
        NodePrivateRequest::ReadModelRuntimeLogs(_) => {
            NodePrivateResponseKind::ModelRuntimeLogs
        },
        NodePrivateRequest::CheckCoreUpdate { .. } => {
            NodePrivateResponseKind::CoreUpdateCheck
        },
        NodePrivateRequest::UpdateCore { .. } => {
            NodePrivateResponseKind::CoreUpdated
        },
        NodePrivateRequest::UpdateModel(_) => {
            NodePrivateResponseKind::ModelUpdated
        },
        NodePrivateRequest::ReadExposure
        | NodePrivateRequest::EnableExposure
        | NodePrivateRequest::DisableExposure => {
            NodePrivateResponseKind::Exposure
        },
        NodePrivateRequest::ReadRuntimeInstallationIds => {
            NodePrivateResponseKind::RuntimeInstallationIds
        },
        NodePrivateRequest::RemoveRuntimeInstallation { .. } => {
            NodePrivateResponseKind::RuntimeInstallationRemoved
        },
        NodePrivateRequest::ActivatePairedChild(_)
        | NodePrivateRequest::RestorePairedMain(_) => {
            NodePrivateResponseKind::PairingAuthorityChanged
        },
        NodePrivateRequest::Gateway(_) => {
            NodePrivateResponseKind::Gateway
        },
        NodePrivateRequest::Uninstall(_) => NodePrivateResponseKind::UninstallLease,
    }
}

impl<O> NodePrivateRequest<O> {
    /// Returns the exact authorization capability required by this request.
    pub fn action(&self) -> (action: NodePrivateAction)
        ensures
            action == action_of(*self),
    {
        match self {
            NodePrivateRequest::ReadLocalNode => NodePrivateAction::ReadLocalNode,
            NodePrivateRequest::ReadNodes => NodePrivateAction::ReadNodes,
            NodePrivateRequest::ReadNode { .. } => NodePrivateAction::ReadNode,
            NodePrivateRequest::ReadHardware { .. } => NodePrivateAction::ReadHardware,
            NodePrivateRequest::ReadHostProjection { .. } => NodePrivateAction::ReadHostProjection,
            NodePrivateRequest::ReadHostInventory => NodePrivateAction::ReadHostInventory,
            NodePrivateRequest::ReadStorage => NodePrivateAction::ReadStorage,
            NodePrivateRequest::CleanStorage(_) => NodePrivateAction::CleanStorage,
            NodePrivateRequest::ReadCatalog(_) => NodePrivateAction::ReadCatalog,
            NodePrivateRequest::ReadCompatibleTargets { .. } => {
                NodePrivateAction::ReadCompatibleTargets
            },
            NodePrivateRequest::EnrollChild { .. } => NodePrivateAction::EnrollChild,
            NodePrivateRequest::TransitionChild { .. } => NodePrivateAction::TransitionChild,
            NodePrivateRequest::ReadPendingOutbox => NodePrivateAction::ReadOutbox,
            NodePrivateRequest::AcknowledgeOutbox { .. } => NodePrivateAction::AcknowledgeOutbox,
            NodePrivateRequest::OpenPairing(_) => NodePrivateAction::OpenPairing,
            NodePrivateRequest::EnrollPairing(_) => NodePrivateAction::EnrollPairing,
            NodePrivateRequest::ApprovePairing(_) => NodePrivateAction::ApprovePairing,
            NodePrivateRequest::ReadPairingStatus { .. } => NodePrivateAction::ReadPairingStatus,
            NodePrivateRequest::PreviewBenchmark { .. } => NodePrivateAction::PreviewBenchmark,
            NodePrivateRequest::StartBenchmark { .. } => NodePrivateAction::StartBenchmark,
            NodePrivateRequest::StartBenchmarkVerification { .. } => {
                NodePrivateAction::StartBenchmark
            },
            NodePrivateRequest::ReadActiveBenchmark => NodePrivateAction::ReadActiveBenchmark,
            NodePrivateRequest::ReadBenchmark { .. } => NodePrivateAction::ReadBenchmark,
            NodePrivateRequest::StopBenchmark { .. } => NodePrivateAction::StopBenchmark,
            NodePrivateRequest::AddController { .. } => NodePrivateAction::AddController,
            NodePrivateRequest::ReadControllers => NodePrivateAction::ReadControllers,
            NodePrivateRequest::RevokeController { .. } => NodePrivateAction::RevokeController,
            NodePrivateRequest::CreateApiKey { .. } => NodePrivateAction::CreateApiKey,
            NodePrivateRequest::ReadApiKeys => NodePrivateAction::ReadApiKeys,
            NodePrivateRequest::ReadApiKey { .. } => NodePrivateAction::ReadApiKey,
            NodePrivateRequest::UpdateApiKeyPolicy { .. } => NodePrivateAction::UpdateApiKeyPolicy,
            NodePrivateRequest::RotateApiKey { .. } => NodePrivateAction::RotateApiKey,
            NodePrivateRequest::RevokeApiKey { .. } => NodePrivateAction::RevokeApiKey,
            NodePrivateRequest::OpenCommandAudit { .. } => NodePrivateAction::OpenCommandAudit,
            NodePrivateRequest::CompleteCommandAudit(_) => NodePrivateAction::CompleteCommandAudit,
            NodePrivateRequest::ReadAuditEvents { .. } => NodePrivateAction::ReadAuditEvents,
            NodePrivateRequest::ReadAuditEvent { .. } => NodePrivateAction::ReadAuditEvent,
            NodePrivateRequest::VerifyAudit => NodePrivateAction::VerifyAudit,
            NodePrivateRequest::ExportAudit => NodePrivateAction::ExportAudit,
            NodePrivateRequest::ListModels => NodePrivateAction::ListModels,
            NodePrivateRequest::InstallModel(_) => NodePrivateAction::InstallModel,
            NodePrivateRequest::PauseModel { .. } => NodePrivateAction::PauseModel,
            NodePrivateRequest::ResumeModel { .. } => NodePrivateAction::ResumeModel,
            NodePrivateRequest::RestartModel { .. } => NodePrivateAction::RestartModel,
            NodePrivateRequest::RecoverModel { .. } => NodePrivateAction::RecoverModel,
            NodePrivateRequest::RemoveModel(_) => NodePrivateAction::RemoveModel,
            NodePrivateRequest::RollbackModel { .. } => NodePrivateAction::RollbackModel,
            NodePrivateRequest::PreviewRollbackModel { .. } => {
                NodePrivateAction::PreviewRollbackModel
            },
            NodePrivateRequest::ReadModelLogs { .. } => NodePrivateAction::ReadModelLogs,
            NodePrivateRequest::ReadModelRuntimeLogs(_) => NodePrivateAction::ReadModelRuntimeLogs,
            NodePrivateRequest::CheckCoreUpdate { .. } => NodePrivateAction::CheckCoreUpdate,
            NodePrivateRequest::UpdateCore { .. } => NodePrivateAction::UpdateCore,
            NodePrivateRequest::UpdateModel(_) => NodePrivateAction::UpdateModel,
            NodePrivateRequest::ReadExposure => NodePrivateAction::ReadExposure,
            NodePrivateRequest::EnableExposure => NodePrivateAction::EnableExposure,
            NodePrivateRequest::DisableExposure => NodePrivateAction::DisableExposure,
            NodePrivateRequest::ReadRuntimeInstallationIds => {
                NodePrivateAction::ReadRuntimeInstallationIds
            },
            NodePrivateRequest::RemoveRuntimeInstallation { .. } => {
                NodePrivateAction::RemoveRuntimeInstallation
            },
            NodePrivateRequest::Uninstall(_) => NodePrivateAction::Uninstall,
            NodePrivateRequest::ActivatePairedChild(_) => NodePrivateAction::ActivatePairedChild,
            NodePrivateRequest::RestorePairedMain(_) => NodePrivateAction::RestorePairedMain,
            NodePrivateRequest::Gateway(_) => NodePrivateAction::Gateway,
        }
    }

    /// Returns whether this action may cross only the owner-authenticated local listener.
    pub fn is_local_only(&self) -> (is: bool)
        ensures
            is == local_only(*self),
    {
        match self {
            NodePrivateRequest::ReadHostInventory
            | NodePrivateRequest::ReadStorage
            | NodePrivateRequest::CleanStorage(_)
            | NodePrivateRequest::AddController { .. }
            | NodePrivateRequest::ReadControllers
            | NodePrivateRequest::RevokeController { .. }
            | NodePrivateRequest::OpenCommandAudit { .. }
            | NodePrivateRequest::CompleteCommandAudit(_)
            | NodePrivateRequest::ReadAuditEvents { .. }
            | NodePrivateRequest::ReadAuditEvent { .. }
            | NodePrivateRequest::VerifyAudit
            | NodePrivateRequest::ExportAudit
            | NodePrivateRequest::CheckCoreUpdate { .. }
            | NodePrivateRequest::UpdateCore { .. }
            | NodePrivateRequest::UpdateModel(_)
            | NodePrivateRequest::ReadExposure
            | NodePrivateRequest::EnableExposure
            | NodePrivateRequest::DisableExposure
            | NodePrivateRequest::ReadRuntimeInstallationIds
            | NodePrivateRequest::RemoveRuntimeInstallation { .. }
            | NodePrivateRequest::Uninstall(_)
            | NodePrivateRequest::ActivatePairedChild(_)
            | NodePrivateRequest::RestorePairedMain(_)
            | NodePrivateRequest::Gateway(_) => true,
            _ => false,
        }
    }

    /// Returns whether dispatch can create or change an uninstall teardown target.
    pub fn conflicts_with_uninstall(&self) -> (conflicts: bool)
        ensures
            conflicts == conflicting(*self),
    {
        match self {
            NodePrivateRequest::CleanStorage(_)
            | NodePrivateRequest::EnrollChild { .. }
            | NodePrivateRequest::TransitionChild { .. }
            | NodePrivateRequest::OpenPairing(_)
            | NodePrivateRequest::EnrollPairing(_)
            | NodePrivateRequest::ApprovePairing(_)
            | NodePrivateRequest::StartBenchmark { .. }
            | NodePrivateRequest::StartBenchmarkVerification { .. }
            | NodePrivateRequest::StopBenchmark { .. }
            | NodePrivateRequest::InstallModel(_)
            | NodePrivateRequest::PauseModel { .. }
            | NodePrivateRequest::ResumeModel { .. }
            | NodePrivateRequest::RestartModel { .. }
            | NodePrivateRequest::RecoverModel { .. }
            | NodePrivateRequest::RemoveModel(_)
            | NodePrivateRequest::RollbackModel { .. }
            | NodePrivateRequest::UpdateCore { .. }
            | NodePrivateRequest::UpdateModel(_)
            | NodePrivateRequest::EnableExposure
            | NodePrivateRequest::DisableExposure
            | NodePrivateRequest::RemoveRuntimeInstallation { .. }
            | NodePrivateRequest::ActivatePairedChild(_)
            | NodePrivateRequest::RestorePairedMain(_)
            | NodePrivateRequest::Gateway(NodeGatewayRequest::AuthorizeInference(_))
            | NodePrivateRequest::Gateway(NodeGatewayRequest::AuthorizeInboundRelay(_)) => true,
            _ => false,
        }
    }

    /// Returns what this request requires of the local node.
    pub fn requirement(&self) -> (requirement: NodePrivateRequirement)
        ensures
            requirement == requirement_of(*self),
    {
        match self {
            NodePrivateRequest::OpenPairing(_)
            | NodePrivateRequest::EnrollPairing(_)
            | NodePrivateRequest::ApprovePairing(_)
            | NodePrivateRequest::ReadPairingStatus { .. }
            | NodePrivateRequest::PreviewBenchmark { .. }
            | NodePrivateRequest::StartBenchmark { .. }
            | NodePrivateRequest::StartBenchmarkVerification { .. }
            | NodePrivateRequest::ReadActiveBenchmark
            | NodePrivateRequest::ReadBenchmark { .. }
            | NodePrivateRequest::StopBenchmark { .. }
            | NodePrivateRequest::AddController { .. }
            | NodePrivateRequest::ReadControllers
            | NodePrivateRequest::RevokeController { .. }
            | NodePrivateRequest::CreateApiKey { .. }
            | NodePrivateRequest::ReadApiKeys
            | NodePrivateRequest::ReadApiKey { .. }
            | NodePrivateRequest::UpdateApiKeyPolicy { .. }
            | NodePrivateRequest::RotateApiKey { .. }
            | NodePrivateRequest::RevokeApiKey { .. }
            | NodePrivateRequest::ReadAuditEvents { .. }
            | NodePrivateRequest::ReadAuditEvent { .. }
            | NodePrivateRequest::VerifyAudit
            | NodePrivateRequest::ExportAudit
            | NodePrivateRequest::InstallModel(_)
            | NodePrivateRequest::PauseModel { .. }
            | NodePrivateRequest::ResumeModel { .. }
            | NodePrivateRequest::RestartModel { .. }
            | NodePrivateRequest::RecoverModel { .. }
            | NodePrivateRequest::RemoveModel(_)
            | NodePrivateRequest::RollbackModel { .. }
            | NodePrivateRequest::UpdateModel(_)
            | NodePrivateRequest::ReadExposure
            | NodePrivateRequest::EnableExposure
            | NodePrivateRequest::DisableExposure => NodePrivateRequirement::ActiveMain,
            NodePrivateRequest::OpenCommandAudit { local_role, .. } => NodePrivateRequirement::ActiveRole { role: *local_role },
            NodePrivateRequest::Gateway(_) => NodePrivateRequirement::AnyRole,
            _ => NodePrivateRequirement::Open,
        }
    }

    /// Returns the service that answers this request.
    pub fn service(&self) -> (service: Option<NodePrivateService>)
        ensures
            service == service_of(*self),
    {
        match self {
            NodePrivateRequest::ReadLocalNode
            | NodePrivateRequest::ReadNodes
            | NodePrivateRequest::ReadNode { .. }
            | NodePrivateRequest::ReadHardware { .. }
            | NodePrivateRequest::EnrollChild { .. }
            | NodePrivateRequest::TransitionChild { .. }
            | NodePrivateRequest::ReadPendingOutbox
            | NodePrivateRequest::AcknowledgeOutbox { .. } => Some(
                NodePrivateService::Manager,
            ),
            NodePrivateRequest::ReadHostProjection { .. } => Some(
                NodePrivateService::HostProjection,
            ),
            NodePrivateRequest::ReadHostInventory => Some(
                NodePrivateService::HostInventory,
            ),
            NodePrivateRequest::ReadStorage
            | NodePrivateRequest::CleanStorage(_) => Some(
                NodePrivateService::Storage,
            ),
            NodePrivateRequest::ReadCatalog(_)
            | NodePrivateRequest::ReadCompatibleTargets { .. } => Some(
                NodePrivateService::Catalog,
            ),
            NodePrivateRequest::OpenPairing(_)
            | NodePrivateRequest::EnrollPairing(_)
            | NodePrivateRequest::ApprovePairing(_)
            | NodePrivateRequest::ReadPairingStatus { .. } => Some(
                NodePrivateService::Pairing,
            ),
            NodePrivateRequest::PreviewBenchmark { .. }
            | NodePrivateRequest::StartBenchmark { .. }
            | NodePrivateRequest::StartBenchmarkVerification { .. }
            | NodePrivateRequest::ReadActiveBenchmark
            | NodePrivateRequest::ReadBenchmark { .. }
            | NodePrivateRequest::StopBenchmark { .. } => Some(
                NodePrivateService::Benchmark,
            ),
            NodePrivateRequest::AddController { .. }
            | NodePrivateRequest::ReadControllers
            | NodePrivateRequest::RevokeController { .. }
            | NodePrivateRequest::CreateApiKey { .. }
            | NodePrivateRequest::ReadApiKeys
            | NodePrivateRequest::ReadApiKey { .. }
            | NodePrivateRequest::UpdateApiKeyPolicy { .. }
            | NodePrivateRequest::RotateApiKey { .. }
            | NodePrivateRequest::RevokeApiKey { .. } => Some(
                NodePrivateService::Authentication,
            ),
            NodePrivateRequest::OpenCommandAudit { .. }
            | NodePrivateRequest::CompleteCommandAudit(_) => Some(
                NodePrivateService::CommandAudit,
            ),
            NodePrivateRequest::ReadAuditEvents { .. }
            | NodePrivateRequest::ReadAuditEvent { .. }
            | NodePrivateRequest::VerifyAudit
            | NodePrivateRequest::ExportAudit => Some(
                NodePrivateService::Audit,
            ),
            NodePrivateRequest::ListModels
            | NodePrivateRequest::InstallModel(_)
            | NodePrivateRequest::PauseModel { .. }
            | NodePrivateRequest::ResumeModel { .. }
            | NodePrivateRequest::RestartModel { .. }
            | NodePrivateRequest::RecoverModel { .. }
            | NodePrivateRequest::RemoveModel(_)
            | NodePrivateRequest::RollbackModel { .. }
            | NodePrivateRequest::PreviewRollbackModel { .. }
            | NodePrivateRequest::ReadModelLogs { .. }
            | NodePrivateRequest::ReadModelRuntimeLogs(_)
            | NodePrivateRequest::UpdateModel(_) => Some(
                NodePrivateService::Model,
            ),
            NodePrivateRequest::CheckCoreUpdate { .. }
            | NodePrivateRequest::UpdateCore { .. } => Some(
                NodePrivateService::CoreUpdate,
            ),
            NodePrivateRequest::ReadExposure
            | NodePrivateRequest::EnableExposure
            | NodePrivateRequest::DisableExposure => Some(
                NodePrivateService::Exposure,
            ),
            NodePrivateRequest::ReadRuntimeInstallationIds
            | NodePrivateRequest::RemoveRuntimeInstallation { .. } => Some(
                NodePrivateService::RuntimeMaintenance,
            ),
            NodePrivateRequest::ActivatePairedChild(_)
            | NodePrivateRequest::RestorePairedMain(_) => Some(
                NodePrivateService::PairingActivation,
            ),
            NodePrivateRequest::Gateway(_) => Some(
                NodePrivateService::Gateway,
            ),
            NodePrivateRequest::Uninstall(_) => None,
        }
    }

    /// Returns what the answer to this request holds.
    pub fn response_kind(&self) -> (kind: NodePrivateResponseKind)
        ensures
            kind == answer_of(*self),
    {
        match self {
            NodePrivateRequest::ReadLocalNode => {
                NodePrivateResponseKind::LocalNode
            },
            NodePrivateRequest::ReadNodes => {
                NodePrivateResponseKind::Nodes
            },
            NodePrivateRequest::ReadNode { .. }
            | NodePrivateRequest::EnrollChild { .. }
            | NodePrivateRequest::TransitionChild { .. } => {
                NodePrivateResponseKind::NodeChanged
            },
            NodePrivateRequest::ReadHardware { .. } => {
                NodePrivateResponseKind::HardwareObservation
            },
            NodePrivateRequest::ReadHostProjection { .. } => {
                NodePrivateResponseKind::HostProjection
            },
            NodePrivateRequest::ReadHostInventory => {
                NodePrivateResponseKind::HostInventory
            },
            NodePrivateRequest::ReadStorage => {
                NodePrivateResponseKind::StorageSnapshot
            },
            NodePrivateRequest::CleanStorage(_) => {
                NodePrivateResponseKind::StorageCleaned
            },
            NodePrivateRequest::ReadCatalog(_) => {
                NodePrivateResponseKind::Catalog
            },
            NodePrivateRequest::ReadCompatibleTargets { .. } => {
                NodePrivateResponseKind::CompatibleTargets
            },
            NodePrivateRequest::ReadPendingOutbox => {
                NodePrivateResponseKind::PendingOutbox
            },
            NodePrivateRequest::AcknowledgeOutbox { .. } => {
                NodePrivateResponseKind::OutboxAcknowledged
            },
            NodePrivateRequest::OpenPairing(_) => {
                NodePrivateResponseKind::PairingInvitation
            },
            NodePrivateRequest::EnrollPairing(_) => {
                NodePrivateResponseKind::PairingEnrollment
            },
            NodePrivateRequest::ApprovePairing(_)
            | NodePrivateRequest::ReadPairingStatus { .. } => {
                NodePrivateResponseKind::PairingStatus
            },
            NodePrivateRequest::PreviewBenchmark { .. } => {
                NodePrivateResponseKind::BenchmarkPlan
            },
            NodePrivateRequest::StartBenchmark { .. }
            | NodePrivateRequest::StartBenchmarkVerification { .. }
            | NodePrivateRequest::StopBenchmark { .. } => {
                NodePrivateResponseKind::BenchmarkChanged
            },
            NodePrivateRequest::ReadActiveBenchmark
            | NodePrivateRequest::ReadBenchmark { .. } => {
                NodePrivateResponseKind::BenchmarkRecord
            },
            NodePrivateRequest::AddController { .. } => {
                NodePrivateResponseKind::ControllerEnrollment
            },
            NodePrivateRequest::ReadControllers => {
                NodePrivateResponseKind::Controllers
            },
            NodePrivateRequest::RevokeController { .. } => {
                NodePrivateResponseKind::Controller
            },
            NodePrivateRequest::CreateApiKey { .. }
            | NodePrivateRequest::RotateApiKey { .. } => {
                NodePrivateResponseKind::ApiKeyIssued
            },
            NodePrivateRequest::ReadApiKeys => {
                NodePrivateResponseKind::ApiKeys
            },
            NodePrivateRequest::ReadApiKey { .. }
            | NodePrivateRequest::UpdateApiKeyPolicy { .. }
            | NodePrivateRequest::RevokeApiKey { .. } => {
                NodePrivateResponseKind::ApiKey
            },
            NodePrivateRequest::OpenCommandAudit { .. } => {
                NodePrivateResponseKind::CommandAuditOpened
            },
            NodePrivateRequest::CompleteCommandAudit(_) => {
                NodePrivateResponseKind::CommandAuditCompleted
            },
            NodePrivateRequest::ReadAuditEvents { .. } => {
                NodePrivateResponseKind::AuditEvents
            },
            NodePrivateRequest::ReadAuditEvent { .. } => {
                NodePrivateResponseKind::AuditEvent
            },
            NodePrivateRequest::VerifyAudit => {
                NodePrivateResponseKind::AuditVerification
            },
            NodePrivateRequest::ExportAudit => {
                NodePrivateResponseKind::AuditExport
            },
            NodePrivateRequest::ListModels => {
                NodePrivateResponseKind::ModelServices
            },
            NodePrivateRequest::InstallModel(_)
            | NodePrivateRequest::PauseModel { .. }
            | NodePrivateRequest::ResumeModel { .. }
            | NodePrivateRequest::RestartModel { .. }
            | NodePrivateRequest::RecoverModel { .. }
            | NodePrivateRequest::RemoveModel(_)
            | NodePrivateRequest::RollbackModel { .. } => {
                NodePrivateResponseKind::ModelChanged
            },
            NodePrivateRequest::PreviewRollbackModel { .. } => {
                NodePrivateResponseKind::ModelRollbackPreview
            },
            NodePrivateRequest::ReadModelLogs { .. } => {
                NodePrivateResponseKind::ModelLogs
            },
            NodePrivateRequest::ReadModelRuntimeLogs(_) => {
                NodePrivateResponseKind::ModelRuntimeLogs
            },
            NodePrivateRequest::CheckCoreUpdate { .. } => {
                NodePrivateResponseKind::CoreUpdateCheck
            },
            NodePrivateRequest::UpdateCore { .. } => {
                NodePrivateResponseKind::CoreUpdated
            },
            NodePrivateRequest::UpdateModel(_) => {
                NodePrivateResponseKind::ModelUpdated
            },
            NodePrivateRequest::ReadExposure
            | NodePrivateRequest::EnableExposure
            | NodePrivateRequest::DisableExposure => {
                NodePrivateResponseKind::Exposure
            },
            NodePrivateRequest::ReadRuntimeInstallationIds => {
                NodePrivateResponseKind::RuntimeInstallationIds
            },
            NodePrivateRequest::RemoveRuntimeInstallation { .. } => {
                NodePrivateResponseKind::RuntimeInstallationRemoved
            },
            NodePrivateRequest::ActivatePairedChild(_)
            | NodePrivateRequest::RestorePairedMain(_) => {
                NodePrivateResponseKind::PairingAuthorityChanged
            },
            NodePrivateRequest::Gateway(_) => {
                NodePrivateResponseKind::Gateway
            },
            NodePrivateRequest::Uninstall(_) => NodePrivateResponseKind::UninstallLease,
        }
    }
}

/// Describes one stable private API boundary failure. A service's own failure is told by the
/// service; of it only the service is kept.
#[derive(Clone, Copy, Debug)]
pub enum NodePrivateApiError {
    AuthorizationDenied,
    ActiveMainRequired,
    Manager(NodeManagerError),
    Catalog,
    Pairing(NodePairingApiError),
    Benchmark,
    Controller,
    Authentication,
    CommandAudit,
    Audit,
    Model(NodeModelError),
    Update,
    Exposure,
    Storage,
    RuntimeMaintenance,
    PairingActivation(NodePairingActivationAuthorityError),
    Gateway,
    HostProjectionUnavailable,
    UninstallInProgress,
    UninstallBusy,
    UninstallSessionConflict,
    UninstallBarrierUnavailable,
}

impl NodePrivateApiError {
    /// The text of the failure; `detail` is the text of a wrapped failure.
    pub open spec fn text(self, detail: Seq<char>) -> Seq<char> {
        match self {
            NodePrivateApiError::AuthorizationDenied => "private node action is denied"@,
            NodePrivateApiError::ActiveMainRequired => "private node action requires an active main"@,
            NodePrivateApiError::HostProjectionUnavailable => "current host projection is unavailable"@,
            NodePrivateApiError::UninstallInProgress => "node uninstall is in progress"@,
            NodePrivateApiError::UninstallBusy => "node mutation is already in progress"@,
            NodePrivateApiError::UninstallSessionConflict => {
                "node uninstall session conflicts with active state"@
            },
            NodePrivateApiError::UninstallBarrierUnavailable => {
                "node uninstall mutation barrier is unavailable"@
            },
            _ => detail,
        }
    }

    /// Presents stable private API language without leaking authorization details.
    pub fn message(&self, detail: &str) -> (text: String)
        ensures
            text@ == self.text(detail@),
    {
        match self {
            NodePrivateApiError::AuthorizationDenied => "private node action is denied".to_owned(),
            NodePrivateApiError::ActiveMainRequired => {
                "private node action requires an active main".to_owned()
            },
            NodePrivateApiError::HostProjectionUnavailable => {
                "current host projection is unavailable".to_owned()
            },
            NodePrivateApiError::UninstallInProgress => "node uninstall is in progress".to_owned(),
            NodePrivateApiError::UninstallBusy => "node mutation is already in progress".to_owned(),
            NodePrivateApiError::UninstallSessionConflict => {
                "node uninstall session conflicts with active state".to_owned()
            },
            NodePrivateApiError::UninstallBarrierUnavailable => {
                "node uninstall mutation barrier is unavailable".to_owned()
            },
            _ => detail.to_owned(),
        }
    }
}

// ---------------------------------------------------------------------------
// Composition
// ---------------------------------------------------------------------------

/// Which services this node was composed with; its own manager and pairing always are.
#[derive(Clone, Copy, Debug, PartialEq, Eq, Structural)]
pub struct NodePrivateComposition {
    pub catalog: bool,
    pub benchmark: bool,
    pub authentication: bool,
    pub command_audit: bool,
    pub audit: bool,
    pub model: bool,
    pub core_update: bool,
    pub exposure: bool,
    pub storage: bool,
    pub runtime_maintenance: bool,
    pub pairing_activation: bool,
    pub host_projection: bool,
    pub gateway: bool,
}

/// What stands in the way of asking one service, if anything does.
pub open spec fn service_missing(
    composition: NodePrivateComposition,
    service: NodePrivateService,
) -> Option<NodePrivateApiError> {
    match service {
        NodePrivateService::Manager
        | NodePrivateService::Pairing
        | NodePrivateService::HostInventory => None,
        NodePrivateService::HostProjection => if composition.host_projection {
            None
        } else {
            Some(NodePrivateApiError::HostProjectionUnavailable)
        },
        NodePrivateService::Storage => if composition.storage {
            None
        } else {
            Some(NodePrivateApiError::Storage)
        },
        NodePrivateService::Catalog => if composition.catalog {
            None
        } else {
            Some(NodePrivateApiError::Catalog)
        },
        NodePrivateService::Benchmark => if composition.benchmark {
            None
        } else {
            Some(NodePrivateApiError::Benchmark)
        },
        NodePrivateService::Authentication => if composition.authentication {
            None
        } else {
            Some(NodePrivateApiError::Authentication)
        },
        NodePrivateService::CommandAudit => if composition.command_audit {
            None
        } else {
            Some(NodePrivateApiError::CommandAudit)
        },
        NodePrivateService::Audit => if composition.audit {
            None
        } else {
            Some(NodePrivateApiError::Audit)
        },
        NodePrivateService::Model => if composition.model {
            None
        } else {
            Some(NodePrivateApiError::Model(NodeModelError::ProviderUnavailable))
        },
        NodePrivateService::CoreUpdate => if composition.core_update {
            None
        } else {
            Some(NodePrivateApiError::Update)
        },
        NodePrivateService::Exposure => if composition.exposure {
            None
        } else {
            Some(NodePrivateApiError::Exposure)
        },
        NodePrivateService::RuntimeMaintenance => if composition.runtime_maintenance {
            None
        } else {
            Some(NodePrivateApiError::RuntimeMaintenance)
        },
        NodePrivateService::PairingActivation => if composition.pairing_activation {
            None
        } else {
            Some(
                NodePrivateApiError::PairingActivation(
                    NodePairingActivationAuthorityError::Unavailable,
                ),
            )
        },
        NodePrivateService::Gateway => if composition.gateway {
            None
        } else {
            Some(NodePrivateApiError::Gateway)
        },
    }
}

/// Requires one service to be composed.
pub fn require_service(
    composition: &NodePrivateComposition,
    service: NodePrivateService,
) -> (result: Result<
    (),
    NodePrivateApiError,
>)
    ensures
        result == (match service_missing(*composition, service) {
            Some(error) => Err(error),
            None => Ok::<(), NodePrivateApiError>(()),
        }),
{
    let (composed, error) = match service {
        NodePrivateService::Manager
        | NodePrivateService::Pairing
        | NodePrivateService::HostInventory => (
            true,
            NodePrivateApiError::HostProjectionUnavailable,
        ),
        NodePrivateService::HostProjection => (
            composition.host_projection,
            NodePrivateApiError::HostProjectionUnavailable,
        ),
        NodePrivateService::Storage => (composition.storage, NodePrivateApiError::Storage),
        NodePrivateService::Catalog => (composition.catalog, NodePrivateApiError::Catalog),
        NodePrivateService::Benchmark => (composition.benchmark, NodePrivateApiError::Benchmark),
        NodePrivateService::Authentication => (
            composition.authentication,
            NodePrivateApiError::Authentication,
        ),
        NodePrivateService::CommandAudit => (
            composition.command_audit,
            NodePrivateApiError::CommandAudit,
        ),
        NodePrivateService::Audit => (composition.audit, NodePrivateApiError::Audit),
        NodePrivateService::Model => (
            composition.model,
            NodePrivateApiError::Model(NodeModelError::ProviderUnavailable),
        ),
        NodePrivateService::CoreUpdate => (composition.core_update, NodePrivateApiError::Update),
        NodePrivateService::Exposure => (composition.exposure, NodePrivateApiError::Exposure),
        NodePrivateService::RuntimeMaintenance => (
            composition.runtime_maintenance,
            NodePrivateApiError::RuntimeMaintenance,
        ),
        NodePrivateService::PairingActivation => (
            composition.pairing_activation,
            NodePrivateApiError::PairingActivation(
                NodePairingActivationAuthorityError::Unavailable,
            ),
        ),
        NodePrivateService::Gateway => (composition.gateway, NodePrivateApiError::Gateway),
    };
    if composed {
        Ok(())
    } else {
        Err(error)
    }
}

// ---------------------------------------------------------------------------
// The uninstall lease
// ---------------------------------------------------------------------------

/// Describes whether one exact begin call applied or replayed its lease.
#[derive(Clone, Copy, Debug, PartialEq, Eq, Structural)]
pub enum NodeUninstallSessionDisposition {
    Applied,
    Replayed,
}

/// Identifies one exact nonremoved model service and every placement group it owns.
#[derive(Debug)]
pub struct NodeUninstallModelTarget {
    pub service_id: ModelServiceId,
    pub placement_group_ids: Vec<PlacementGroupId>,
}

/// What one [`NodeUninstallModelTarget`] holds.
pub struct NodeUninstallModelTargetView {
    pub service_id: ModelServiceId,
    pub placement_group_ids: Seq<PlacementGroupId>,
}

impl View for NodeUninstallModelTarget {
    type V = NodeUninstallModelTargetView;

    open spec fn view(&self) -> NodeUninstallModelTargetView {
        NodeUninstallModelTargetView {
            service_id: self.service_id,
            placement_group_ids: self.placement_group_ids@,
        }
    }
}

impl Valued for NodeUninstallModelTarget {
    fn copy(&self) -> (copy: Self) {
        NodeUninstallModelTarget {
            service_id: self.service_id,
            placement_group_ids: clone_ids(&self.placement_group_ids),
        }
    }

    fn same(&self, other: &Self) -> (same: bool) {
        self.service_id == other.service_id
            && same_ids(&self.placement_group_ids, &other.placement_group_ids)
    }
}

impl NodeUninstallModelTarget {
    /// Returns the exact nonremoved model-service identity.
    pub fn service_id(&self) -> (value: ModelServiceId)
        ensures
            value == self@.service_id,
    {
        self.service_id
    }

    /// Returns every exact placement group owned by the service in canonical order.
    pub fn placement_group_ids(&self) -> (values: &Vec<PlacementGroupId>)
        ensures
            values@ == self@.placement_group_ids,
    {
        &self.placement_group_ids
    }
}

impl NodeUninstallModelTarget {
    /// Creates one compact model teardown target from manager-validated identities.
    pub fn new(
        service_id: ModelServiceId,
        placement_group_ids: Vec<PlacementGroupId>,
    ) -> (target: Self)
        ensures
            target@ == (NodeUninstallModelTargetView {
                service_id,
                placement_group_ids: placement_group_ids@,
            }),
    {
        NodeUninstallModelTarget { service_id, placement_group_ids }
    }
}

/// Returns the exact retention-bound target inventory atomically captured at admission.
#[derive(Debug)]
pub struct NodeUninstallInventory {
    pub(crate) local_role: NodeRole,
    pub(crate) active_benchmark_id: Option<OperationId>,
    pub(crate) exposure_configuration_sha256: Option<Sha256Digest>,
    pub(crate) model_targets: Vec<NodeUninstallModelTarget>,
    pub(crate) runtime_installation_ids: Vec<RuntimeInstallationId>,
}

/// What one [`NodeUninstallInventory`] holds.
pub struct NodeUninstallInventoryView {
    pub local_role: NodeRole,
    pub active_benchmark_id: Option<OperationId>,
    pub exposure_configuration_sha256: Option<Sha256Digest>,
    pub model_targets: Seq<NodeUninstallModelTargetView>,
    pub runtime_installation_ids: Seq<RuntimeInstallationId>,
}

impl View for NodeUninstallInventory {
    type V = NodeUninstallInventoryView;

    open(crate) spec fn view(&self) -> NodeUninstallInventoryView {
        NodeUninstallInventoryView {
            local_role: self.local_role,
            active_benchmark_id: self.active_benchmark_id,
            exposure_configuration_sha256: self.exposure_configuration_sha256,
            model_targets: views(self.model_targets@),
            runtime_installation_ids: self.runtime_installation_ids@,
        }
    }
}

impl Valued for NodeUninstallInventory {
    fn copy(&self) -> (copy: Self) {
        proof {
            use_type_invariant(self);
        }
        NodeUninstallInventory {
            local_role: self.local_role,
            active_benchmark_id: self.active_benchmark_id,
            exposure_configuration_sha256: self.exposure_configuration_sha256,
            model_targets: copy_all(&self.model_targets),
            runtime_installation_ids: clone_ids(&self.runtime_installation_ids),
        }
    }

    fn same(&self, other: &Self) -> (same: bool) {
        self.local_role == other.local_role
            && self.active_benchmark_id == other.active_benchmark_id
            && self.exposure_configuration_sha256 == other.exposure_configuration_sha256
            && same_all(&self.model_targets, &other.model_targets)
            && same_ids(&self.runtime_installation_ids, &other.runtime_installation_ids)
    }
}

impl NodeUninstallInventory {
    #[verifier::type_invariant]
    pub(crate) open(crate) spec fn is_valid(self) -> bool {
        inventory_checked(self@) is Ok
    }

    /// Returns the exact local role observed at admission.
    pub fn local_role(&self) -> (value: NodeRole)
        ensures
            value == self@.local_role,
    {
        self.local_role
    }

    /// Returns the sole active benchmark when one existed at admission.
    pub fn active_benchmark_id(&self) -> (value: Option<OperationId>)
        ensures
            value == self@.active_benchmark_id,
    {
        self.active_benchmark_id
    }

    /// Returns the exact enabled exposure configuration identity observed at admission.
    pub fn exposure_configuration_sha256(&self) -> (value: Option<Sha256Digest>)
        ensures
            value == self@.exposure_configuration_sha256,
    {
        self.exposure_configuration_sha256
    }

    /// Returns every nonremoved model service and its exact placement-group identities.
    pub fn model_targets(&self) -> (values: &Vec<NodeUninstallModelTarget>)
        ensures
            views(values@) == self@.model_targets,
    {
        &self.model_targets
    }

    /// Returns every runtime identity observed at admission in stable order.
    pub fn runtime_installation_ids(&self) -> (values: &Vec<RuntimeInstallationId>)
        ensures
            values@ == self@.runtime_installation_ids,
    {
        &self.runtime_installation_ids
    }
}

/// The services of some targets.
pub open spec fn target_services(
    targets: Seq<NodeUninstallModelTargetView>,
) -> Seq<ModelServiceId> {
    Seq::new(targets.len(), |i: int| targets[i].service_id)
}

/// The services and groups of the first targets.
pub open spec fn model_target_count(targets: Seq<NodeUninstallModelTargetView>, count: nat) -> nat
    decreases count,
{
    if count == 0 {
        0
    } else {
        model_target_count(targets, (count - 1) as nat) + 1 + targets[count
            - 1].placement_group_ids.len()
    }
}

/// All targets of one teardown.
pub open spec fn teardown_targets(inventory: NodeUninstallInventoryView) -> nat {
    (if inventory.active_benchmark_id is Some {
        1nat
    } else {
        0
    }) + (if inventory.exposure_configuration_sha256 is Some {
        1nat
    } else {
        0
    }) + inventory.runtime_installation_ids.len() + model_target_count(
        inventory.model_targets,
        inventory.model_targets.len(),
    )
}

/// A canonical bounded inventory; a child has nothing but runtimes.
pub open spec fn inventory_valid(inventory: NodeUninstallInventoryView) -> bool {
    &&& inventory.local_role == NodeRole::Child ==> inventory.active_benchmark_id is None
        && inventory.exposure_configuration_sha256 is None && inventory.model_targets.len() == 0
    &&& strictly_increasing(target_services(inventory.model_targets))
    &&& forall|i: int|
        0 <= i < inventory.model_targets.len() ==> strictly_increasing(
            (#[trigger] inventory.model_targets[i]).placement_group_ids,
        )
    &&& strictly_increasing(inventory.runtime_installation_ids)
    &&& teardown_targets(inventory) <= MAXIMUM_UNINSTALL_TEARDOWN_TARGETS
}

proof fn lemma_target_count_grows(
    targets: Seq<NodeUninstallModelTargetView>,
    low: nat,
    high: nat,
)
    requires
        low <= high,
    ensures
        model_target_count(targets, low) <= model_target_count(targets, high),
    decreases high,
{
    if low < high {
        lemma_target_count_grows(targets, low, (high - 1) as nat);
    }
}

/// What one valid or invalid inventory gives.
pub open spec fn inventory_checked(inventory: NodeUninstallInventoryView) -> Result<
    NodeUninstallInventoryView,
    NodePrivateApiError,
> {
    if inventory_valid(inventory) {
        Ok(inventory)
    } else {
        Err(NodePrivateApiError::UninstallBarrierUnavailable)
    }
}

impl NodeUninstallInventory {
    /// Creates one canonical inventory only when its aggregate teardown target count is bounded.
    pub fn new(
        local_role: NodeRole,
        active_benchmark_id: Option<OperationId>,
        exposure_configuration_sha256: Option<Sha256Digest>,
        model_targets: Vec<NodeUninstallModelTarget>,
        runtime_installation_ids: Vec<RuntimeInstallationId>,
    ) -> (result: Result<Self, NodePrivateApiError>)
        ensures
            outcome(result) == inventory_checked(
                NodeUninstallInventoryView {
                    local_role,
                    active_benchmark_id,
                    exposure_configuration_sha256,
                    model_targets: views(model_targets@),
                    runtime_installation_ids: runtime_installation_ids@,
                },
            ),
    {
        NodeUninstallInventory::validate(
            local_role,
            active_benchmark_id,
            exposure_configuration_sha256,
            &model_targets,
            &runtime_installation_ids,
        )?;
        Ok(
            NodeUninstallInventory {
                local_role,
                active_benchmark_id,
                exposure_configuration_sha256,
                model_targets,
                runtime_installation_ids,
            },
        )
    }

    /// Requires canonical identity ordering and the one aggregate teardown-target bound.
    #[verifier::loop_isolation(false)]
    fn validate(
        local_role: NodeRole,
        active_benchmark_id: Option<OperationId>,
        exposure_configuration_sha256: Option<Sha256Digest>,
        model_targets: &Vec<NodeUninstallModelTarget>,
        runtime_installation_ids: &Vec<RuntimeInstallationId>,
    ) -> (result: Result<(), NodePrivateApiError>)
        ensures
            ({
                let inventory = NodeUninstallInventoryView {
                    local_role,
                    active_benchmark_id,
                    exposure_configuration_sha256,
                    model_targets: views(model_targets@),
                    runtime_installation_ids: runtime_installation_ids@,
                };
                result == (if inventory_valid(inventory) {
                    Ok::<(), NodePrivateApiError>(())
                } else {
                    Err(NodePrivateApiError::UninstallBarrierUnavailable)
                })
            }),
    {
        let ghost inventory = NodeUninstallInventoryView {
            local_role,
            active_benchmark_id,
            exposure_configuration_sha256,
            model_targets: views(model_targets@),
            runtime_installation_ids: runtime_installation_ids@,
        };
        if local_role == NodeRole::Child && (active_benchmark_id.is_some()
            || exposure_configuration_sha256.is_some() || model_targets.len() > 0) {
            return Err(NodePrivateApiError::UninstallBarrierUnavailable);
        }
        let ghost targets = views(model_targets@);
        let ghost services = target_services(targets);
        let length: usize = model_targets.len();
        if !increasing_ids(runtime_installation_ids) {
            return Err(NodePrivateApiError::UninstallBarrierUnavailable);
        }
        let runtimes: usize = runtime_installation_ids.len();
        let mut count: usize = 0;
        if runtimes <= MAXIMUM_UNINSTALL_TEARDOWN_TARGETS {
            count = runtimes;
        } else {
            assert(teardown_targets(inventory) > MAXIMUM_UNINSTALL_TEARDOWN_TARGETS);
            return Err(NodePrivateApiError::UninstallBarrierUnavailable);
        }
        if active_benchmark_id.is_some() {
            count += 1;
        }
        if exposure_configuration_sha256.is_some() {
            count += 1;
        }
        let ghost fixed = count as nat;
        let mut i: usize = 0;
        while i < length
            invariant
                i <= length == model_targets@.len() == targets.len(),
                targets == views(model_targets@),
                services == target_services(targets),
                count == fixed + model_target_count(targets, i as nat),
                count <= MAXIMUM_UNINSTALL_TEARDOWN_TARGETS + 2,
                forall|k: int, m: int|
                    #![trigger services[k], services[m]]
                    0 <= k < m < i ==> services[k].value < services[m].value,
                forall|k: int|
                    0 <= k < i ==> strictly_increasing((#[trigger] targets[k]).placement_group_ids),
            decreases length - i,
        {
            let target = &model_targets[i];
            assert(targets[i as int] == target@);
            assert(services[i as int] == target.service_id);
            if i > 0 {
                assert(services[i - 1] == targets[i - 1].service_id);
                if model_targets[i - 1].service_id.value >= target.service_id.value {
                    assert(!strictly_increasing(services));
                    return Err(NodePrivateApiError::UninstallBarrierUnavailable);
                }
            }
            if !increasing_ids(&target.placement_group_ids) {
                assert(!strictly_increasing(targets[i as int].placement_group_ids));
                return Err(NodePrivateApiError::UninstallBarrierUnavailable);
            }
            let groups: usize = target.placement_group_ids.len();
            proof {
                lemma_target_count_grows(targets, (i + 1) as nat, targets.len());
            }
            if groups > MAXIMUM_UNINSTALL_TEARDOWN_TARGETS || count + 1 + groups
                > MAXIMUM_UNINSTALL_TEARDOWN_TARGETS {
                assert(teardown_targets(inventory) > MAXIMUM_UNINSTALL_TEARDOWN_TARGETS);
                return Err(NodePrivateApiError::UninstallBarrierUnavailable);
            }
            count = count + 1 + groups;
            i += 1;
        }
        assert(count == teardown_targets(inventory));
        if count > MAXIMUM_UNINSTALL_TEARDOWN_TARGETS {
            return Err(NodePrivateApiError::UninstallBarrierUnavailable);
        }
        assert(strictly_increasing(services));
        Ok(())
    }
}

/// Confirms one retention-bound uninstall lease and its atomic target inventory.
#[derive(Debug)]
pub struct NodeUninstallBeginReceipt {
    pub session_id: Sha256Digest,
    pub disposition: NodeUninstallSessionDisposition,
    pub model_retention: NodeRuntimeModelRetention,
    pub inventory: NodeUninstallInventory,
}

/// What one [`NodeUninstallBeginReceipt`] holds.
pub struct NodeUninstallBeginReceiptView {
    pub session_id: Sha256Digest,
    pub disposition: NodeUninstallSessionDisposition,
    pub model_retention: NodeRuntimeModelRetention,
    pub inventory: NodeUninstallInventoryView,
}

impl View for NodeUninstallBeginReceipt {
    type V = NodeUninstallBeginReceiptView;

    open spec fn view(&self) -> NodeUninstallBeginReceiptView {
        NodeUninstallBeginReceiptView {
            session_id: self.session_id,
            disposition: self.disposition,
            model_retention: self.model_retention,
            inventory: self.inventory@,
        }
    }
}

impl Valued for NodeUninstallBeginReceipt {
    fn copy(&self) -> (copy: Self) {
        NodeUninstallBeginReceipt {
            session_id: self.session_id,
            disposition: self.disposition,
            model_retention: self.model_retention,
            inventory: self.inventory.copy(),
        }
    }

    fn same(&self, other: &Self) -> (same: bool) {
        self.session_id == other.session_id
            && self.disposition == other.disposition
            && self.model_retention == other.model_retention
            && self.inventory.same(&other.inventory)
    }
}

impl NodeUninstallBeginReceipt {
    /// Returns the exact caller-generated uninstall session identity.
    pub fn session_id(&self) -> (value: Sha256Digest)
        ensures
            value == self@.session_id,
    {
        self.session_id
    }

    /// Returns whether the begin call applied or replayed the lease.
    pub fn disposition(&self) -> (value: NodeUninstallSessionDisposition)
        ensures
            value == self@.disposition,
    {
        self.disposition
    }

    /// Returns the immutable model retention bound to this lease.
    pub fn model_retention(&self) -> (value: NodeRuntimeModelRetention)
        ensures
            value == self@.model_retention,
    {
        self.model_retention
    }

    /// Returns the target inventory captured by the applied lease.
    pub fn inventory(&self) -> (value: &NodeUninstallInventory)
        ensures
            value@ == self@.inventory,
    {
        &self.inventory
    }
}

impl NodeUninstallBeginReceipt {
    /// Creates one exact applied or replayed lease receipt.
    pub fn new(
        session_id: Sha256Digest,
        disposition: NodeUninstallSessionDisposition,
        model_retention: NodeRuntimeModelRetention,
        inventory: NodeUninstallInventory,
    ) -> (receipt: Self)
        ensures
            receipt@ == (NodeUninstallBeginReceiptView {
                session_id,
                disposition,
                model_retention,
                inventory: inventory@,
            }),
    {
        NodeUninstallBeginReceipt { session_id, disposition, model_retention, inventory }
    }
}

/// Confirms cancellation of one exact local uninstall lease.
#[derive(Clone, Copy, Debug, PartialEq, Eq, Structural)]
pub struct NodeUninstallCancelReceipt {
    pub session_id: Sha256Digest,
}

impl NodeUninstallCancelReceipt {
    /// Creates one matching canceled-lease receipt.
    pub fn new(session_id: Sha256Digest) -> (receipt: Self)
        ensures
            receipt.session_id == session_id,
    {
        NodeUninstallCancelReceipt { session_id }
    }

    /// Returns the exact canceled lease identity.
    pub fn session_id(&self) -> (session_id: &Sha256Digest)
        ensures
            *session_id == self.session_id,
    {
        &self.session_id
    }
}

/// Confirms complete policy-bound artifact-root validation and finalization.
#[derive(Clone, Copy, Debug, PartialEq, Eq, Structural)]
pub struct NodeRuntimeArtifactsFinalizationReceipt {
    pub model_retention: NodeRuntimeModelRetention,
}

impl NodeRuntimeArtifactsFinalizationReceipt {
    /// Creates one receipt only after complete root finalization was accepted.
    pub fn new(model_retention: NodeRuntimeModelRetention) -> (receipt: Self)
        ensures
            receipt.model_retention == model_retention,
    {
        NodeRuntimeArtifactsFinalizationReceipt { model_retention }
    }

    /// Returns the exact model-retention policy applied to the finalized root.
    pub fn model_retention(&self) -> (model_retention: NodeRuntimeModelRetention)
        ensures
            model_retention == self.model_retention,
    {
        self.model_retention
    }
}

// ---------------------------------------------------------------------------
// The inventory
// ---------------------------------------------------------------------------

/// One read that an inventory needs.
#[derive(Clone, Copy, Debug, PartialEq, Eq, Structural)]
pub enum InventoryRead {
    LocalRole,
    ActiveBenchmark,
    Exposure,
    ModelServices,
    RuntimeInstallations,
}

/// What the reads of one inventory gave so far.
pub struct InventoryObservations {
    pub local_role: Option<Result<NodeRole, NodePrivateApiError>>,
    pub active_benchmark: Option<Result<Option<OperationId>, NodePrivateApiError>>,
    pub exposure: Option<Result<Option<Sha256Digest>, NodePrivateApiError>>,
    pub services: Option<Result<Vec<NodeModelServiceSummary>, NodePrivateApiError>>,
    pub runtimes: Option<Result<Vec<RuntimeInstallationId>, NodePrivateApiError>>,
}

/// What one [`InventoryObservations`] holds.
pub struct InventoryObservationsView {
    pub local_role: Option<Result<NodeRole, NodePrivateApiError>>,
    pub active_benchmark: Option<Result<Option<OperationId>, NodePrivateApiError>>,
    pub exposure: Option<Result<Option<Sha256Digest>, NodePrivateApiError>>,
    pub services: Option<Result<Seq<NodeModelServiceSummaryView>, NodePrivateApiError>>,
    pub runtimes: Option<Result<Seq<RuntimeInstallationId>, NodePrivateApiError>>,
}

impl View for InventoryObservations {
    type V = InventoryObservationsView;

    open spec fn view(&self) -> InventoryObservationsView {
        InventoryObservationsView {
            local_role: self.local_role,
            active_benchmark: self.active_benchmark,
            exposure: self.exposure,
            services: match self.services {
                Some(Ok(services)) => Some(Ok(views(services@))),
                Some(Err(error)) => Some(Err(error)),
                None => None,
            },
            runtimes: match self.runtimes {
                Some(Ok(runtimes)) => Some(Ok(runtimes@)),
                Some(Err(error)) => Some(Err(error)),
                None => None,
            },
        }
    }
}

/// What capturing one inventory does next: one more read, or the end.
pub enum InventoryStep {
    Read(InventoryRead),
    Captured(NodeUninstallInventory),
}

/// What one [`InventoryStep`] holds.
pub enum InventoryStepView {
    Read(InventoryRead),
    Captured(NodeUninstallInventoryView),
}

impl View for InventoryStep {
    type V = InventoryStepView;

    open spec fn view(&self) -> InventoryStepView {
        match self {
            InventoryStep::Read(read) => InventoryStepView::Read(*read),
            InventoryStep::Captured(inventory) => InventoryStepView::Captured(inventory@),
        }
    }
}

/// A service that is not removed.
pub open spec fn still_served(service: NodeModelServiceSummaryView) -> bool {
    service.desired_state != ModelServiceDesiredState::Removed
}

/// The teardown target of one service.
pub open spec fn service_target(
    service: NodeModelServiceSummaryView,
) -> NodeUninstallModelTargetView {
    NodeUninstallModelTargetView {
        service_id: service.service_id,
        placement_group_ids: service.placement_group_ids,
    }
}

/// The teardown targets of the first services, in their order.
pub open spec fn targets_of(services: Seq<NodeModelServiceSummaryView>, count: nat) -> Seq<
    NodeUninstallModelTargetView,
>
    decreases count,
{
    if count == 0 {
        Seq::empty()
    } else if still_served(services[count - 1]) {
        targets_of(services, (count - 1) as nat).push(service_target(services[count - 1]))
    } else {
        targets_of(services, (count - 1) as nat)
    }
}

#[verifier::loop_isolation(false)]
fn model_targets_of(services: &Vec<NodeModelServiceSummary>) -> (targets: Vec<
    NodeUninstallModelTarget,
>)
    ensures
        views(targets@) == targets_of(views(services@), services@.len()),
{
    let ghost summaries = views(services@);
    let count: usize = services.len();
    let mut targets: Vec<NodeUninstallModelTarget> = Vec::new();
    let mut i: usize = 0;
    assert(views(targets@) =~= targets_of(summaries, 0));
    while i < count
        invariant
            i <= count == services@.len(),
            summaries == views(services@),
            views(targets@) == targets_of(summaries, i as nat),
        decreases count - i,
    {
        let service = &services[i];
        assert(summaries[i as int] == service@);
        if !matches!(service.desired_state, ModelServiceDesiredState::Removed) {
            let target = NodeUninstallModelTarget::new(
                service.service_id,
                clone_ids(&service.placement_group_ids),
            );
            let ghost before = targets@;
            let ghost added = target@;
            targets.push(target);
            assert(views(targets@) =~= views(before).push(added));
        }
        i += 1;
    }
    targets
}

/// The reads that only a main makes, one after the other.
pub open spec fn main_reads(
    composition: NodePrivateComposition,
    seen: InventoryObservationsView,
) -> Result<
    Result<(Option<OperationId>, Option<Sha256Digest>, Seq<NodeUninstallModelTargetView>), InventoryRead>,
    NodePrivateApiError,
> {
    match service_missing(composition, NodePrivateService::Benchmark) {
        Some(error) => Err(error),
        None => match seen.active_benchmark {
            None => Ok(Err(InventoryRead::ActiveBenchmark)),
            Some(Err(error)) => Err(error),
            Some(Ok(benchmark)) => match service_missing(composition, NodePrivateService::Exposure) {
                Some(error) => Err(error),
                None => match seen.exposure {
                    None => Ok(Err(InventoryRead::Exposure)),
                    Some(Err(error)) => Err(error),
                    Some(Ok(exposure)) => match service_missing(
                        composition,
                        NodePrivateService::Model,
                    ) {
                        Some(error) => Err(error),
                        None => match seen.services {
                            None => Ok(Err(InventoryRead::ModelServices)),
                            Some(Err(error)) => Err(error),
                            Some(Ok(services)) => Ok(
                                Ok((benchmark, exposure, targets_of(services, services.len()))),
                            ),
                        },
                    },
                },
            },
        },
    }
}

/// What capturing one inventory does next.
pub open spec fn inventory_captured(
    composition: NodePrivateComposition,
    seen: InventoryObservationsView,
) -> Result<InventoryStepView, NodePrivateApiError> {
    match seen.local_role {
        None => Ok(InventoryStepView::Read(InventoryRead::LocalRole)),
        Some(Err(error)) => Err(error),
        Some(Ok(local_role)) => {
            let reads = if local_role == NodeRole::Main {
                main_reads(composition, seen)
            } else {
                Ok(Ok((None, None, Seq::empty())))
            };
            match reads {
                Err(error) => Err(error),
                Ok(Err(read)) => Ok(InventoryStepView::Read(read)),
                Ok(Ok((active_benchmark_id, exposure_configuration_sha256, model_targets))) => {
                    match service_missing(composition, NodePrivateService::RuntimeMaintenance) {
                        Some(error) => Err(error),
                        None => match seen.runtimes {
                            None => Ok(
                                InventoryStepView::Read(InventoryRead::RuntimeInstallations),
                            ),
                            Some(Err(error)) => Err(error),
                            Some(Ok(runtime_installation_ids)) => match inventory_checked(
                                NodeUninstallInventoryView {
                                    local_role,
                                    active_benchmark_id,
                                    exposure_configuration_sha256,
                                    model_targets,
                                    runtime_installation_ids,
                                },
                            ) {
                                Err(error) => Err(error),
                                Ok(inventory) => Ok(InventoryStepView::Captured(inventory)),
                            },
                        },
                    }
                },
            }
        },
    }
}

/// Captures every preexisting teardown target, one read after the other.
pub fn uninstall_inventory(
    composition: &NodePrivateComposition,
    seen: &InventoryObservations,
) -> (step: Result<InventoryStep, NodePrivateApiError>)
    ensures
        outcome(step) == inventory_captured(*composition, seen@),
{
    let local_role = match &seen.local_role {
        None => {
            return Ok(InventoryStep::Read(InventoryRead::LocalRole));
        },
        Some(Err(error)) => {
            return Err(*error);
        },
        Some(Ok(local_role)) => *local_role,
    };
    let mut active_benchmark_id: Option<OperationId> = None;
    let mut exposure_configuration_sha256: Option<Sha256Digest> = None;
    let mut model_targets: Vec<NodeUninstallModelTarget> = Vec::new();
    assert(views(model_targets@) =~= Seq::<NodeUninstallModelTargetView>::empty());
    if local_role == NodeRole::Main {
        require_service(composition, NodePrivateService::Benchmark)?;
        match &seen.active_benchmark {
            None => {
                return Ok(InventoryStep::Read(InventoryRead::ActiveBenchmark));
            },
            Some(Err(error)) => {
                return Err(*error);
            },
            Some(Ok(benchmark)) => {
                active_benchmark_id = *benchmark;
            },
        }
        require_service(composition, NodePrivateService::Exposure)?;
        match &seen.exposure {
            None => {
                return Ok(InventoryStep::Read(InventoryRead::Exposure));
            },
            Some(Err(error)) => {
                return Err(*error);
            },
            Some(Ok(exposure)) => {
                exposure_configuration_sha256 = *exposure;
            },
        }
        require_service(composition, NodePrivateService::Model)?;
        match &seen.services {
            None => {
                return Ok(InventoryStep::Read(InventoryRead::ModelServices));
            },
            Some(Err(error)) => {
                return Err(*error);
            },
            Some(Ok(services)) => {
                model_targets = model_targets_of(services);
            },
        }
    }
    require_service(composition, NodePrivateService::RuntimeMaintenance)?;
    match &seen.runtimes {
        None => Ok(InventoryStep::Read(InventoryRead::RuntimeInstallations)),
        Some(Err(error)) => Err(*error),
        Some(Ok(runtimes)) => match NodeUninstallInventory::new(
            local_role,
            active_benchmark_id,
            exposure_configuration_sha256,
            model_targets,
            clone_ids(runtimes),
        ) {
            Ok(inventory) => Ok(InventoryStep::Captured(inventory)),
            Err(error) => Err(error),
        },
    }
}

/// Retains one active lease's immutable policy and applied target inventory for exact replay.
#[derive(Debug)]
pub struct ActiveNodeUninstallSession {
    pub session_id: Sha256Digest,
    pub model_retention: NodeRuntimeModelRetention,
    pub inventory: NodeUninstallInventory,
}

/// What one [`ActiveNodeUninstallSession`] holds.
pub struct ActiveNodeUninstallSessionView {
    pub session_id: Sha256Digest,
    pub model_retention: NodeRuntimeModelRetention,
    pub inventory: NodeUninstallInventoryView,
}

impl View for ActiveNodeUninstallSession {
    type V = ActiveNodeUninstallSessionView;

    open spec fn view(&self) -> ActiveNodeUninstallSessionView {
        ActiveNodeUninstallSessionView {
            session_id: self.session_id,
            model_retention: self.model_retention,
            inventory: self.inventory@,
        }
    }
}

impl Valued for ActiveNodeUninstallSession {
    fn copy(&self) -> (copy: Self) {
        ActiveNodeUninstallSession {
            session_id: self.session_id,
            model_retention: self.model_retention,
            inventory: self.inventory.copy(),
        }
    }

    fn same(&self, other: &Self) -> (same: bool) {
        self.session_id == other.session_id
            && self.model_retention == other.model_retention
            && self.inventory.same(&other.inventory)
    }
}

// ---------------------------------------------------------------------------
// Dispatch
// ---------------------------------------------------------------------------

/// How the mutation barrier could be taken.
#[derive(Clone, Copy, Debug, PartialEq, Eq, Structural)]
pub enum UninstallBarrier {
    Held,
    Busy,
    Poisoned,
}

/// The role and the state of the local node.
#[derive(Clone, Copy, Debug, PartialEq, Eq, Structural)]
pub struct LocalStanding {
    pub role: NodeRole,
    pub state: NodeState,
}

/// What a dispatch was told of the world around it.
pub struct NodePrivateObservations {
    pub barrier: UninstallBarrier,
    pub local: Option<Result<LocalStanding, NodeManagerError>>,
    pub inventory: Option<Result<NodeUninstallInventory, NodePrivateApiError>>,
}

/// What one [`NodePrivateObservations`] holds.
pub struct NodePrivateObservationsView {
    pub barrier: UninstallBarrier,
    pub local: Option<Result<LocalStanding, NodeManagerError>>,
    pub inventory: Option<Result<NodeUninstallInventoryView, NodePrivateApiError>>,
}

impl View for NodePrivateObservations {
    type V = NodePrivateObservationsView;

    open spec fn view(&self) -> NodePrivateObservationsView {
        NodePrivateObservationsView {
            barrier: self.barrier,
            local: self.local,
            inventory: match self.inventory {
                Some(inventory) => Some(outcome(inventory)),
                None => None,
            },
        }
    }
}

/// One call that a service is asked to make.
pub enum NodePrivateCall<O> {
    /// Answer the request; the Gateway is told the local role.
    Answer { service: NodePrivateService, request: NodePrivateRequest<O>, role: Option<NodeRole> },
    /// Stop the leased benchmark.
    StopBenchmark { job_id: OperationId },
    /// Disable the leased exposure, if it still is the one that was captured.
    DisableMatchingExposure { configuration_sha256: Sha256Digest },
    /// Remove the leased model service.
    RemoveModel { removal: NodeModelRemoveRequest },
    /// Remove the leased runtime installation.
    RemoveRuntimeInstallation {
        installation_id: RuntimeInstallationId,
        model_retention: NodeRuntimeModelRetention,
    },
    /// Finalize the artifact root under the leased policy.
    FinalizeRuntimeArtifacts { model_retention: NodeRuntimeModelRetention },
}

/// What one dispatch comes to: a call whose answer is the response, or the response itself.
pub enum NodePrivateStep<O> {
    Call(NodePrivateCall<O>),
    UninstallBegan(NodeUninstallBeginReceipt),
    UninstallCanceled(NodeUninstallCancelReceipt),
    ExposureAlreadyDisabled,
}

/// What one [`NodePrivateStep`] holds.
pub enum NodePrivateStepView<O> {
    Call(NodePrivateCall<O>),
    UninstallBegan(NodeUninstallBeginReceiptView),
    UninstallCanceled(NodeUninstallCancelReceipt),
    ExposureAlreadyDisabled,
}

impl<O> View for NodePrivateStep<O> {
    type V = NodePrivateStepView<O>;

    open spec fn view(&self) -> NodePrivateStepView<O> {
        match self {
            NodePrivateStep::Call(call) => NodePrivateStepView::Call(*call),
            NodePrivateStep::UninstallBegan(receipt) => NodePrivateStepView::UninstallBegan(
                receipt@,
            ),
            NodePrivateStep::UninstallCanceled(receipt) => NodePrivateStepView::UninstallCanceled(
                *receipt,
            ),
            NodePrivateStep::ExposureAlreadyDisabled => NodePrivateStepView::ExposureAlreadyDisabled,
        }
    }
}

/// Owns authorization ordering and typed dispatch into one composed node.
pub struct NodePrivateApi {
    pub local_node_id: NodeId,
    pub composition: NodePrivateComposition,
    pub uninstall_session: Option<ActiveNodeUninstallSession>,
}

/// What one [`NodePrivateApi`] holds.
pub struct NodePrivateApiView {
    pub local_node_id: NodeId,
    pub composition: NodePrivateComposition,
    pub uninstall_session: Option<ActiveNodeUninstallSessionView>,
}

impl View for NodePrivateApi {
    type V = NodePrivateApiView;

    open spec fn view(&self) -> NodePrivateApiView {
        NodePrivateApiView {
            local_node_id: self.local_node_id,
            composition: self.composition,
            uninstall_session: match self.uninstall_session {
                Some(session) => Some(session@),
                None => None,
            },
        }
    }
}

/// A lease whose inventory is canonical and bounded.
pub open spec fn api_valid(api: NodePrivateApiView) -> bool {
    api.uninstall_session matches Some(session) ==> inventory_valid(session.inventory)
}

/// An active main.
pub open spec fn standing_main(standing: LocalStanding) -> bool {
    standing.role == NodeRole::Main && standing.state == NodeState::Active
}

/// Requires the local node to be an active main.
pub open spec fn active_main(local: Result<LocalStanding, NodeManagerError>) -> Result<
    (),
    NodePrivateApiError,
> {
    match local {
        Err(error) => Err(NodePrivateApiError::Manager(error)),
        Ok(standing) => if standing_main(standing) {
            Ok(())
        } else {
            Err(NodePrivateApiError::ActiveMainRequired)
        },
    }
}

fn require_active_main(local: &Result<LocalStanding, NodeManagerError>) -> (result: Result<
    (),
    NodePrivateApiError,
>)
    ensures
        result == active_main(*local),
{
    match local {
        Err(error) => Err(NodePrivateApiError::Manager(*error)),
        Ok(standing) => {
            if standing.role != NodeRole::Main || standing.state != NodeState::Active {
                return Err(NodePrivateApiError::ActiveMainRequired);
            }
            Ok(())
        },
    }
}

/// What one requirement lets through: the local role, where the service is told it.
pub open spec fn requirement_met(
    requirement: NodePrivateRequirement,
    local: Option<Result<LocalStanding, NodeManagerError>>,
) -> Result<Option<NodeRole>, NodePrivateApiError> {
    match requirement {
        NodePrivateRequirement::Open => Ok(None),
        NodePrivateRequirement::ActiveMain => match active_main(local->Some_0) {
            Err(error) => Err(error),
            Ok(()) => Ok(None),
        },
        NodePrivateRequirement::ActiveRole { role } => match local->Some_0 {
            Err(error) => Err(NodePrivateApiError::Manager(error)),
            Ok(standing) => if standing.state == NodeState::Active && standing.role == role {
                Ok(None)
            } else {
                Err(NodePrivateApiError::AuthorizationDenied)
            },
        },
        NodePrivateRequirement::AnyRole => match local->Some_0 {
            Err(error) => Err(NodePrivateApiError::Manager(error)),
            Ok(standing) => Ok(Some(standing.role)),
        },
    }
}

fn meet_requirement(
    requirement: NodePrivateRequirement,
    local: &Option<Result<LocalStanding, NodeManagerError>>,
) -> (role: Result<Option<NodeRole>, NodePrivateApiError>)
    requires
        requirement != NodePrivateRequirement::Open ==> local is Some,
    ensures
        role == requirement_met(requirement, *local),
{
    let local = match local {
        Some(local) => local,
        None => {
            return Ok(None);
        },
    };
    match requirement {
        NodePrivateRequirement::Open => Ok(None),
        NodePrivateRequirement::ActiveMain => {
            require_active_main(local)?;
            Ok(None)
        },
        NodePrivateRequirement::ActiveRole { role } => match local {
            Err(error) => Err(NodePrivateApiError::Manager(*error)),
            Ok(standing) => {
                if standing.state != NodeState::Active || standing.role != role {
                    return Err(NodePrivateApiError::AuthorizationDenied);
                }
                Ok(None)
            },
        },
        NodePrivateRequirement::AnyRole => match local {
            Err(error) => Err(NodePrivateApiError::Manager(*error)),
            Ok(standing) => Ok(Some(standing.role)),
        },
    }
}

/// Routes one request to its service: what it requires first, then the composition.
pub open spec fn request_routed<O>(
    composition: NodePrivateComposition,
    request: NodePrivateRequest<O>,
    service: NodePrivateService,
    local: Option<Result<LocalStanding, NodeManagerError>>,
) -> Result<NodePrivateStepView<O>, NodePrivateApiError> {
    match requirement_met(requirement_of(request), local) {
        Err(error) => Err(error),
        Ok(role) => match service_missing(composition, service) {
            Some(error) => Err(error),
            None => Ok(
                NodePrivateStepView::Call(NodePrivateCall::Answer { service, request, role }),
            ),
        },
    }
}

/// Begins or exactly replays one lease.
pub open spec fn uninstall_begun<O>(
    api: NodePrivateApiView,
    session_id: Sha256Digest,
    model_retention: NodeRuntimeModelRetention,
    seen: NodePrivateObservationsView,
) -> (NodePrivateApiView, Result<NodePrivateStepView<O>, NodePrivateApiError>) {
    match seen.barrier {
        UninstallBarrier::Busy => (api, Err(NodePrivateApiError::UninstallBusy)),
        UninstallBarrier::Poisoned => (
            api,
            Err(NodePrivateApiError::UninstallBarrierUnavailable),
        ),
        UninstallBarrier::Held => match api.uninstall_session {
            Some(current) => (
                api,
                if current.session_id == session_id && current.model_retention
                    == model_retention {
                    Ok(
                        NodePrivateStepView::UninstallBegan(
                            NodeUninstallBeginReceiptView {
                                session_id,
                                disposition: NodeUninstallSessionDisposition::Replayed,
                                model_retention,
                                inventory: current.inventory,
                            },
                        ),
                    )
                } else {
                    Err(NodePrivateApiError::UninstallSessionConflict)
                },
            ),
            None => match seen.inventory->Some_0 {
                Err(error) => (api, Err(error)),
                Ok(inventory) => (
                    NodePrivateApiView {
                        uninstall_session: Some(
                            ActiveNodeUninstallSessionView {
                                session_id,
                                model_retention,
                                inventory,
                            },
                        ),
                        ..api
                    },
                    Ok(
                        NodePrivateStepView::UninstallBegan(
                            NodeUninstallBeginReceiptView {
                                session_id,
                                disposition: NodeUninstallSessionDisposition::Applied,
                                model_retention,
                                inventory,
                            },
                        ),
                    ),
                ),
            },
        },
    }
}

/// The leased service is among the targets.
pub open spec fn targets_service(
    inventory: NodeUninstallInventoryView,
    service_id: ModelServiceId,
) -> bool {
    target_services(inventory.model_targets).contains(service_id)
}

/// A service is asked for one call if it is composed.
pub open spec fn service_called<O>(
    composition: NodePrivateComposition,
    service: NodePrivateService,
    call: NodePrivateCall<O>,
) -> Result<NodePrivateStepView<O>, NodePrivateApiError> {
    match service_missing(composition, service) {
        Some(error) => Err(error),
        None => Ok(NodePrivateStepView::Call(call)),
    }
}

/// What one operation of the matching lease comes to, before the lease itself changes.
pub open spec fn lease_operated<O>(
    composition: NodePrivateComposition,
    session: ActiveNodeUninstallSessionView,
    request: NodeUninstallRequest,
    local: Option<Result<LocalStanding, NodeManagerError>>,
) -> Result<NodePrivateStepView<O>, NodePrivateApiError> {
    match request {
        NodeUninstallRequest::Begin { .. } => Err(NodePrivateApiError::UninstallBusy),
        NodeUninstallRequest::StopBenchmark { job_id, .. } => match active_main(local->Some_0) {
            Err(error) => Err(error),
            Ok(()) => if session.inventory.active_benchmark_id != Some(job_id) {
                Err(NodePrivateApiError::UninstallSessionConflict)
            } else {
                service_called(
                    composition,
                    NodePrivateService::Benchmark,
                    NodePrivateCall::StopBenchmark { job_id },
                )
            },
        },
        NodeUninstallRequest::DisableExposure { .. } => match active_main(local->Some_0) {
            Err(error) => Err(error),
            Ok(()) => match session.inventory.exposure_configuration_sha256 {
                None => Ok(NodePrivateStepView::ExposureAlreadyDisabled),
                Some(configuration_sha256) => service_called(
                    composition,
                    NodePrivateService::Exposure,
                    NodePrivateCall::DisableMatchingExposure { configuration_sha256 },
                ),
            },
        },
        NodeUninstallRequest::RemoveModel { request, .. } => match active_main(local->Some_0) {
            Err(error) => Err(error),
            Ok(()) => if !targets_service(session.inventory, request.service_id) || !(
            request.selection is All) || runtime_retention(request.runtime_retention)
                != session.model_retention {
                Err(NodePrivateApiError::UninstallSessionConflict)
            } else {
                service_called(
                    composition,
                    NodePrivateService::Model,
                    NodePrivateCall::RemoveModel { removal: request },
                )
            },
        },
        NodeUninstallRequest::RemoveRuntimeInstallation {
            installation_id,
            model_retention,
            ..
        } => if model_retention != session.model_retention
            || !session.inventory.runtime_installation_ids.contains(installation_id) {
            Err(NodePrivateApiError::UninstallSessionConflict)
        } else {
            service_called(
                composition,
                NodePrivateService::RuntimeMaintenance,
                NodePrivateCall::RemoveRuntimeInstallation { installation_id, model_retention },
            )
        },
        NodeUninstallRequest::FinalizeRuntimeArtifacts { model_retention, .. } => {
            if model_retention != session.model_retention {
                Err(NodePrivateApiError::UninstallSessionConflict)
            } else {
                service_called(
                    composition,
                    NodePrivateService::RuntimeMaintenance,
                    NodePrivateCall::FinalizeRuntimeArtifacts { model_retention },
                )
            }
        },
        NodeUninstallRequest::Cancel { session_id } => Ok(
            NodePrivateStepView::UninstallCanceled(NodeUninstallCancelReceipt { session_id }),
        ),
    }
}

/// What one operation comes to: without the matching lease it is refused, and a cancellation ends
/// the lease.
pub open spec fn uninstall_dispatched<O>(
    api: NodePrivateApiView,
    request: NodeUninstallRequest,
    local: Option<Result<LocalStanding, NodeManagerError>>,
) -> (NodePrivateApiView, Result<NodePrivateStepView<O>, NodePrivateApiError>) {
    match api.uninstall_session {
        Some(session) if session.session_id == lease_presented(request) => (
            if request is Cancel {
                NodePrivateApiView { uninstall_session: None, ..api }
            } else {
                api
            },
            lease_operated(api.composition, session, request, local),
        ),
        _ => (api, Err(NodePrivateApiError::UninstallSessionConflict)),
    }
}

/// What one authorized request comes to.
pub open spec fn authorized_dispatch<O>(
    api: NodePrivateApiView,
    request: NodePrivateRequest<O>,
    seen: NodePrivateObservationsView,
) -> (NodePrivateApiView, Result<NodePrivateStepView<O>, NodePrivateApiError>) {
    match request {
        NodePrivateRequest::Uninstall(NodeUninstallRequest::Begin { session_id, model_retention }) => {
            uninstall_begun(api, session_id, model_retention, seen)
        },
        NodePrivateRequest::Uninstall(operation) => if seen.barrier != UninstallBarrier::Held {
            (api, Err(NodePrivateApiError::UninstallBarrierUnavailable))
        } else {
            uninstall_dispatched(api, operation, seen.local)
        },
        _ => (
            api,
            if conflicting(request) && seen.barrier != UninstallBarrier::Held {
                Err(NodePrivateApiError::UninstallBarrierUnavailable)
            } else if conflicting(request) && api.uninstall_session is Some {
                Err(NodePrivateApiError::UninstallInProgress)
            } else {
                request_routed(
                    api.composition,
                    request,
                    service_of(request)->Some_0,
                    seen.local,
                )
            },
        ),
    }
}

/// The outcome of one request depends on the local node.
pub open spec fn local_needed<O>(
    api: NodePrivateApiView,
    request: NodePrivateRequest<O>,
    barrier: UninstallBarrier,
) -> bool {
    match request {
        NodePrivateRequest::Uninstall(operation) => {
            &&& barrier == UninstallBarrier::Held
            &&& operation is StopBenchmark || operation is DisableExposure
                || operation is RemoveModel
            &&& api.uninstall_session matches Some(session) && session.session_id
                == lease_presented(operation)
        },
        _ => requirement_of(request) != NodePrivateRequirement::Open && (conflicting(request) ==> barrier
            == UninstallBarrier::Held && api.uninstall_session is None),
    }
}

/// The outcome of one request depends on the inventory.
pub open spec fn inventory_needed<O>(
    api: NodePrivateApiView,
    request: NodePrivateRequest<O>,
    barrier: UninstallBarrier,
) -> bool {
    &&& request matches NodePrivateRequest::Uninstall(operation) && operation is Begin
    &&& barrier == UninstallBarrier::Held
    &&& api.uninstall_session is None
}

/// Everything that the outcome depends on was observed.
pub open spec fn sufficient<O>(
    api: NodePrivateApiView,
    request: NodePrivateRequest<O>,
    seen: NodePrivateObservationsView,
) -> bool {
    &&& local_needed(api, request, seen.barrier) ==> seen.local is Some
    &&& inventory_needed(api, request, seen.barrier) ==> seen.inventory is Some
}

// ---------------------------------------------------------------------------
// Authorization
// ---------------------------------------------------------------------------

/// One question to the authorization provider.
pub enum AuthorizationCall {
    Action { principal_id: CredentialId, action: NodePrivateAction },
    Controller {
        controller_id: ControllerId,
        certificate_sha256: Sha256Digest,
        action: NodePrivateAction,
    },
    ChildTransition { principal_id: CredentialId, node_id: NodeId },
    ChildRead { principal_id: CredentialId, node_id: NodeId },
}

/// An authorization provider: what it will answer at each position, and what it was asked.
pub struct AuthorizationWorld {
    pub script: spec_fn(nat) -> Result<(), NodePrivateApiError>,
    pub calls: Seq<AuthorizationCall>,
}

impl AuthorizationWorld {
    /// The provider after one more question, and its answer.
    pub open spec fn asked(self, call: AuthorizationCall) -> (
        AuthorizationWorld,
        Result<(), NodePrivateApiError>,
    ) {
        (
            AuthorizationWorld { script: self.script, calls: self.calls.push(call) },
            (self.script)(self.calls.len()),
        )
    }
}

/// Defines the narrow authentication capability consumed by the private API.
pub trait NodePrivateAuthorizationProvider {
    /// The answers that are still to come and the questions that were asked.
    spec fn world(&self) -> AuthorizationWorld;

    /// Authorizes one authenticated principal for one exact private action.
    fn authorize(
        &mut self,
        principal_id: &CredentialId,
        action: NodePrivateAction,
    ) -> (result: Result<
        (),
        NodePrivateApiError,
    >)
        ensures
            (final(self).world(), result) == old(self).world().asked(
                AuthorizationCall::Action { principal_id: *principal_id, action },
            ),
    ;

    /// Authorizes one exact active controller certificate without treating it as a paired node.
    fn authorize_controller(
        &mut self,
        controller_id: &ControllerId,
        certificate_sha256: &Sha256Digest,
        action: NodePrivateAction,
    ) -> (result: Result<(), NodePrivateApiError>)
        ensures
            (final(self).world(), result) == old(self).world().asked(
                AuthorizationCall::Controller {
                    controller_id: *controller_id,
                    certificate_sha256: *certificate_sha256,
                    action,
                },
            ),
    ;

    /// Authorizes a child lifecycle mutation only for the authenticated child's own identity.
    fn authorize_child_transition(
        &mut self,
        principal_id: &CredentialId,
        node_id: &NodeId,
    ) -> (result:
        Result<(), NodePrivateApiError>)
        ensures
            (final(self).world(), result) == old(self).world().asked(
                AuthorizationCall::ChildTransition {
                    principal_id: *principal_id,
                    node_id: *node_id,
                },
            ),
    ;

    /// Authorizes one child record read only for the authenticated child's own identity.
    fn authorize_child_read(
        &mut self,
        principal_id: &CredentialId,
        node_id: &NodeId,
    ) -> (result: Result<
        (),
        NodePrivateApiError,
    >)
        ensures
            (final(self).world(), result) == old(self).world().asked(
                AuthorizationCall::ChildRead { principal_id: *principal_id, node_id: *node_id },
            ),
    ;
}

/// The question that a paired node's request is authorized by.
pub open spec fn authorization_of<O>(
    principal_id: CredentialId,
    request: NodePrivateRequest<O>,
) -> AuthorizationCall {
    match request {
        NodePrivateRequest::ReadNode { node_id } => AuthorizationCall::ChildRead {
            principal_id,
            node_id,
        },
        NodePrivateRequest::ReadHostProjection { node_id } => AuthorizationCall::ChildRead {
            principal_id,
            node_id,
        },
        NodePrivateRequest::TransitionChild { node_id, .. } => AuthorizationCall::ChildTransition {
            principal_id,
            node_id,
        },
        _ => AuthorizationCall::Action { principal_id, action: action_of(request) },
    }
}

/// How one remote request is authorized: a local-only one is denied unasked, any other is decided
/// by the answer to the question.
pub open spec fn remote_authorized<O>(
    world: AuthorizationWorld,
    question: AuthorizationCall,
    request: NodePrivateRequest<O>,
) -> (AuthorizationWorld, Result<(), NodePrivateApiError>) {
    if local_only(request) {
        (world, Err(NodePrivateApiError::AuthorizationDenied))
    } else {
        world.asked(question)
    }
}

/// What one remote request comes to: it is dispatched once it was authorized.
pub open spec fn remote_dispatch<O>(
    api: NodePrivateApiView,
    world: AuthorizationWorld,
    question: AuthorizationCall,
    request: NodePrivateRequest<O>,
    seen: NodePrivateObservationsView,
) -> (
    NodePrivateApiView,
    AuthorizationWorld,
    Result<NodePrivateStepView<O>, NodePrivateApiError>,
) {
    let (asked, answer) = remote_authorized(world, question, request);
    match answer {
        Err(error) => (api, asked, Err(error)),
        Ok(()) => {
            let (after, step) = authorized_dispatch(api, request, seen);
            (after, asked, step)
        },
    }
}

/// Authorizes one request of a paired node before anything is read or held for it.
pub fn authorize_peer<A: NodePrivateAuthorizationProvider, O>(
    authorization: &mut A,
    principal_id: &CredentialId,
    request: &NodePrivateRequest<O>,
) -> (result: Result<(), NodePrivateApiError>)
    ensures
        (final(authorization).world(), result) == remote_authorized(
            old(authorization).world(),
            authorization_of(*principal_id, *request),
            *request,
        ),
{
    if request.is_local_only() {
        return Err(NodePrivateApiError::AuthorizationDenied);
    }
    match request {
        NodePrivateRequest::ReadNode { node_id } => {
            authorization.authorize_child_read(principal_id, node_id)
        },
        NodePrivateRequest::ReadHostProjection { node_id } => {
            authorization.authorize_child_read(principal_id, node_id)
        },
        NodePrivateRequest::TransitionChild { node_id, .. } => {
            authorization.authorize_child_transition(principal_id, node_id)
        },
        _ => authorization.authorize(principal_id, request.action()),
    }
}

/// Revalidates one controller certificate for one request before anything is read or held for it.
pub fn authorize_controller_request<A: NodePrivateAuthorizationProvider, O>(
    authorization: &mut A,
    controller_id: &ControllerId,
    certificate_sha256: &Sha256Digest,
    request: &NodePrivateRequest<O>,
) -> (result: Result<(), NodePrivateApiError>)
    ensures
        (final(authorization).world(), result) == remote_authorized(
            old(authorization).world(),
            AuthorizationCall::Controller {
                controller_id: *controller_id,
                certificate_sha256: *certificate_sha256,
                action: action_of(*request),
            },
            *request,
        ),
{
    if request.is_local_only() {
        return Err(NodePrivateApiError::AuthorizationDenied);
    }
    authorization.authorize_controller(controller_id, certificate_sha256, request.action())
}

impl NodePrivateApi {
    /// Creates one private dispatcher with nothing but the node's own manager and pairing.
    pub fn new(local_node_id: NodeId) -> (api: Self)
        ensures
            api@ == (NodePrivateApiView {
                local_node_id,
                composition: NodePrivateComposition {
                    catalog: false,
                    benchmark: false,
                    authentication: false,
                    command_audit: false,
                    audit: false,
                    model: false,
                    core_update: false,
                    exposure: false,
                    storage: false,
                    runtime_maintenance: false,
                    pairing_activation: false,
                    host_projection: false,
                    gateway: false,
                },
                uninstall_session: None,
            }),
    {
        NodePrivateApi {
            local_node_id,
            composition: NodePrivateComposition {
                catalog: false,
                benchmark: false,
                authentication: false,
                command_audit: false,
                audit: false,
                model: false,
                core_update: false,
                exposure: false,
                storage: false,
                runtime_maintenance: false,
                pairing_activation: false,
                host_projection: false,
                gateway: false,
            },
            uninstall_session: None,
        }
    }

    /// Adds the benchmark command surface.
    pub fn with_benchmark(self) -> (api: Self)
        ensures
            api@ == (NodePrivateApiView {
                composition: NodePrivateComposition { benchmark: true, ..self@.composition },
                ..self@
            }),
    {
        let mut api = self;
        api.composition.benchmark = true;
        api
    }

    /// Adds signed catalog compatibility projection.
    pub fn with_catalog(self) -> (api: Self)
        ensures
            api@ == (NodePrivateApiView {
                composition: NodePrivateComposition { catalog: true, ..self@.composition },
                ..self@
            }),
    {
        let mut api = self;
        api.composition.catalog = true;
        api
    }

    /// Adds the authentication command surface.
    pub fn with_authentication(self) -> (api: Self)
        ensures
            api@ == (NodePrivateApiView {
                composition: NodePrivateComposition { authentication: true, ..self@.composition },
                ..self@
            }),
    {
        let mut api = self;
        api.composition.authentication = true;
        api
    }

    /// Adds the local command-audit lifecycle.
    pub fn with_command_audit(self) -> (api: Self)
        ensures
            api@ == (NodePrivateApiView {
                composition: NodePrivateComposition { command_audit: true, ..self@.composition },
                ..self@
            }),
    {
        let mut api = self;
        api.composition.command_audit = true;
        api
    }

    /// Adds the audit query surface.
    pub fn with_audit(self) -> (api: Self)
        ensures
            api@ == (NodePrivateApiView {
                composition: NodePrivateComposition { audit: true, ..self@.composition },
                ..self@
            }),
    {
        let mut api = self;
        api.composition.audit = true;
        api
    }

    /// Adds the model coordinator surface.
    pub fn with_model(self) -> (api: Self)
        ensures
            api@ == (NodePrivateApiView {
                composition: NodePrivateComposition { model: true, ..self@.composition },
                ..self@
            }),
    {
        let mut api = self;
        api.composition.model = true;
        api
    }

    /// Adds the core update projection.
    pub fn with_core_update(self) -> (api: Self)
        ensures
            api@ == (NodePrivateApiView {
                composition: NodePrivateComposition { core_update: true, ..self@.composition },
                ..self@
            }),
    {
        let mut api = self;
        api.composition.core_update = true;
        api
    }

    /// Adds the Gateway-owned exposure lifecycle.
    pub fn with_exposure(self) -> (api: Self)
        ensures
            api@ == (NodePrivateApiView {
                composition: NodePrivateComposition { exposure: true, ..self@.composition },
                ..self@
            }),
    {
        let mut api = self;
        api.composition.exposure = true;
        api
    }

    /// Adds local storage observation and cleanup.
    pub fn with_storage(self) -> (api: Self)
        ensures
            api@ == (NodePrivateApiView {
                composition: NodePrivateComposition { storage: true, ..self@.composition },
                ..self@
            }),
    {
        let mut api = self;
        api.composition.storage = true;
        api
    }

    /// Adds local runtime inventory and exact removal.
    pub fn with_runtime_maintenance(self) -> (api: Self)
        ensures
            api@ == (NodePrivateApiView {
                composition: NodePrivateComposition { runtime_maintenance: true, ..self@.composition },
                ..self@
            }),
    {
        let mut api = self;
        api.composition.runtime_maintenance = true;
        api
    }

    /// Adds atomic paired-role authority.
    pub fn with_pairing_activation(self) -> (api: Self)
        ensures
            api@ == (NodePrivateApiView {
                composition: NodePrivateComposition { pairing_activation: true, ..self@.composition },
                ..self@
            }),
    {
        let mut api = self;
        api.composition.pairing_activation = true;
        api
    }

    /// Adds the read-only ports used by every host view.
    pub fn with_host_projection(self) -> (api: Self)
        ensures
            api@ == (NodePrivateApiView {
                composition: NodePrivateComposition { host_projection: true, ..self@.composition },
                ..self@
            }),
    {
        let mut api = self;
        api.composition.host_projection = true;
        api
    }

    /// Adds the local-only Gateway capability surface.
    pub fn with_gateway(self) -> (api: Self)
        ensures
            api@ == (NodePrivateApiView {
                composition: NodePrivateComposition { gateway: true, ..self@.composition },
                ..self@
            }),
    {
        let mut api = self;
        api.composition.gateway = true;
        api
    }

    /// Returns whether the outcome of one request depends on the local node.
    pub fn needs_local<O>(
        &self,
        request: &NodePrivateRequest<O>,
        barrier: UninstallBarrier,
    ) -> (needs:
        bool)
        ensures
            needs == local_needed(self@, *request, barrier),
    {
        match request {
            NodePrivateRequest::Uninstall(operation) => {
                let reads = matches!(
                    operation,
                    NodeUninstallRequest::StopBenchmark { .. }
                        | NodeUninstallRequest::DisableExposure { .. }
                        | NodeUninstallRequest::RemoveModel { .. }
                );
                let leased = match &self.uninstall_session {
                    Some(session) => session.session_id == *operation.session_id(),
                    None => false,
                };
                barrier == UninstallBarrier::Held && reads && leased
            },
            _ => request.requirement() != NodePrivateRequirement::Open && (!request.conflicts_with_uninstall()
                || (barrier == UninstallBarrier::Held && self.uninstall_session.is_none())),
        }
    }

    /// Returns whether the outcome of one request depends on the uninstall inventory.
    pub fn needs_inventory<O>(
        &self,
        request: &NodePrivateRequest<O>,
        barrier: UninstallBarrier,
    ) -> (needs: bool)
        ensures
            needs == inventory_needed(self@, *request, barrier),
    {
        let begins = match request {
            NodePrivateRequest::Uninstall(operation) => matches!(
                operation,
                NodeUninstallRequest::Begin { .. }
            ),
            _ => false,
        };
        begins && barrier == UninstallBarrier::Held && self.uninstall_session.is_none()
    }

    /// Authorizes first, then dispatches one exact typed request of a paired node.
    pub fn dispatch<A: NodePrivateAuthorizationProvider, O>(
        &mut self,
        authorization: &mut A,
        principal_id: &CredentialId,
        request: NodePrivateRequest<O>,
        seen: NodePrivateObservations,
    ) -> (step: Result<NodePrivateStep<O>, NodePrivateApiError>)
        requires
            !local_only(request) ==> sufficient(old(self)@, request, seen@),
        ensures
            (final(self)@, final(authorization).world(), outcome(step)) == remote_dispatch(
                old(self)@,
                old(authorization).world(),
                authorization_of(*principal_id, request),
                request,
                seen@,
            ),
    {
        authorize_peer(authorization, principal_id, &request)?;
        self.dispatch_authorized(request, seen)
    }

    /// Revalidates one controller certificate and dispatches only the non-local remote surface.
    pub fn dispatch_controller<A: NodePrivateAuthorizationProvider, O>(
        &mut self,
        authorization: &mut A,
        controller_id: &ControllerId,
        certificate_sha256: &Sha256Digest,
        request: NodePrivateRequest<O>,
        seen: NodePrivateObservations,
    ) -> (step: Result<NodePrivateStep<O>, NodePrivateApiError>)
        requires
            !local_only(request) ==> sufficient(old(self)@, request, seen@),
        ensures
            (final(self)@, final(authorization).world(), outcome(step)) == remote_dispatch(
                old(self)@,
                old(authorization).world(),
                AuthorizationCall::Controller {
                    controller_id: *controller_id,
                    certificate_sha256: *certificate_sha256,
                    action: action_of(request),
                },
                request,
                seen@,
            ),
    {
        authorize_controller_request(authorization, controller_id, certificate_sha256, &request)?;
        self.dispatch_authorized(request, seen)
    }

    /// Dispatches one owner-authenticated local request for this exact Node identity.
    pub fn dispatch_local<O>(
        &mut self,
        local_node_id: &NodeId,
        request: NodePrivateRequest<O>,
        seen: NodePrivateObservations,
    ) -> (step: Result<NodePrivateStep<O>, NodePrivateApiError>)
        requires
            *local_node_id == old(self)@.local_node_id ==> sufficient(old(self)@, request, seen@),
        ensures
            (final(self)@, outcome(step)) == (if *local_node_id != old(self)@.local_node_id {
                (
                    old(self)@,
                    Err::<NodePrivateStepView<O>, NodePrivateApiError>(
                        NodePrivateApiError::AuthorizationDenied,
                    ),
                )
            } else {
                authorized_dispatch(old(self)@, request, seen@)
            }),
    {
        if *local_node_id != self.local_node_id {
            return Err(NodePrivateApiError::AuthorizationDenied);
        }
        self.dispatch_authorized(request, seen)
    }

    /// Dispatches one request only after its remote or local authorization boundary succeeds.
    pub fn dispatch_authorized<O>(
        &mut self,
        request: NodePrivateRequest<O>,
        seen: NodePrivateObservations,
    ) -> (step: Result<NodePrivateStep<O>, NodePrivateApiError>)
        requires
            sufficient(old(self)@, request, seen@),
        ensures
            (final(self)@, outcome(step)) == authorized_dispatch(old(self)@, request, seen@),
    {
        match request {
            NodePrivateRequest::Uninstall(
                NodeUninstallRequest::Begin { session_id, model_retention },
            ) => self.begin_uninstall(&session_id, model_retention, seen.barrier, seen.inventory),
            NodePrivateRequest::Uninstall(operation) => {
                if seen.barrier != UninstallBarrier::Held {
                    return Err(NodePrivateApiError::UninstallBarrierUnavailable);
                }
                self.dispatch_uninstall(operation, &seen.local)
            },
            request => {
                if request.conflicts_with_uninstall() {
                    if seen.barrier != UninstallBarrier::Held {
                        return Err(NodePrivateApiError::UninstallBarrierUnavailable);
                    }
                    if self.uninstall_session.is_some() {
                        return Err(NodePrivateApiError::UninstallInProgress);
                    }
                }
                let role = meet_requirement(request.requirement(), &seen.local)?;
                match request.service() {
                    Some(service) => {
                        require_service(&self.composition, service)?;
                        Ok(
                            NodePrivateStep::Call(
                                NodePrivateCall::Answer { service, request, role },
                            ),
                        )
                    },
                    None => Err(NodePrivateApiError::UninstallBarrierUnavailable),
                }
            },
        }
    }

    /// Nonblockingly activates or exactly replays one retention-bound uninstall lease.
    pub fn begin_uninstall<O>(
        &mut self,
        session_id: &Sha256Digest,
        model_retention: NodeRuntimeModelRetention,
        barrier: UninstallBarrier,
        inventory: Option<Result<NodeUninstallInventory, NodePrivateApiError>>,
    ) -> (step: Result<NodePrivateStep<O>, NodePrivateApiError>)
        requires
            barrier == UninstallBarrier::Held && old(self)@.uninstall_session is None
                ==> inventory is Some,
        ensures
            (final(self)@, outcome(step)) == uninstall_begun::<O>(
                old(self)@,
                *session_id,
                model_retention,
                (NodePrivateObservations { barrier, local: None, inventory })@,
            ),
    {
        match barrier {
            UninstallBarrier::Busy => {
                return Err(NodePrivateApiError::UninstallBusy);
            },
            UninstallBarrier::Poisoned => {
                return Err(NodePrivateApiError::UninstallBarrierUnavailable);
            },
            UninstallBarrier::Held => {},
        }
        if let Some(current) = &self.uninstall_session {
            if current.session_id != *session_id || current.model_retention != model_retention {
                return Err(NodePrivateApiError::UninstallSessionConflict);
            }
            return Ok(
                NodePrivateStep::UninstallBegan(
                    NodeUninstallBeginReceipt::new(
                        *session_id,
                        NodeUninstallSessionDisposition::Replayed,
                        model_retention,
                        current.inventory.copy(),
                    ),
                ),
            );
        }
        let inventory = match inventory {
            Some(Ok(inventory)) => inventory,
            Some(Err(error)) => {
                return Err(error);
            },
            None => {
                return Err(NodePrivateApiError::UninstallBarrierUnavailable);
            },
        };
        self.uninstall_session = Some(
            ActiveNodeUninstallSession {
                session_id: *session_id,
                model_retention,
                inventory: inventory.copy(),
            },
        );
        Ok(
            NodePrivateStep::UninstallBegan(
                NodeUninstallBeginReceipt::new(
                    *session_id,
                    NodeUninstallSessionDisposition::Applied,
                    model_retention,
                    inventory,
                ),
            ),
        )
    }

    /// Applies one exact leased cleanup or matching cancellation under the mutation lock.
    pub fn dispatch_uninstall<O>(
        &mut self,
        request: NodeUninstallRequest,
        local: &Option<Result<LocalStanding, NodeManagerError>>,
    ) -> (step: Result<NodePrivateStep<O>, NodePrivateApiError>)
        requires
            local_needed(
                old(self)@,
                NodePrivateRequest::<O>::Uninstall(request),
                UninstallBarrier::Held,
            ) ==> local is Some,
        ensures
            (final(self)@, outcome(step)) == uninstall_dispatched::<O>(
                old(self)@,
                request,
                *local,
            ),
    {
        let session = match &self.uninstall_session {
            Some(session) => session,
            None => {
                return Err(NodePrivateApiError::UninstallSessionConflict);
            },
        };
        if session.session_id != *request.session_id() {
            return Err(NodePrivateApiError::UninstallSessionConflict);
        }
        match request {
            NodeUninstallRequest::Begin { .. } => Err(NodePrivateApiError::UninstallBusy),
            NodeUninstallRequest::StopBenchmark { job_id, .. } => {
                meet_requirement(NodePrivateRequirement::ActiveMain, local)?;
                match session.inventory.active_benchmark_id {
                    Some(active) => {
                        if active != job_id {
                            return Err(NodePrivateApiError::UninstallSessionConflict);
                        }
                    },
                    None => {
                        return Err(NodePrivateApiError::UninstallSessionConflict);
                    },
                }
                require_service(&self.composition, NodePrivateService::Benchmark)?;
                Ok(NodePrivateStep::Call(NodePrivateCall::StopBenchmark { job_id }))
            },
            NodeUninstallRequest::DisableExposure { .. } => {
                meet_requirement(NodePrivateRequirement::ActiveMain, local)?;
                let configuration_sha256 = match session.inventory.exposure_configuration_sha256 {
                    Some(configuration_sha256) => configuration_sha256,
                    None => {
                        return Ok(NodePrivateStep::ExposureAlreadyDisabled);
                    },
                };
                require_service(&self.composition, NodePrivateService::Exposure)?;
                Ok(
                    NodePrivateStep::Call(
                        NodePrivateCall::DisableMatchingExposure { configuration_sha256 },
                    ),
                )
            },
            NodeUninstallRequest::RemoveModel { request, .. } => {
                meet_requirement(NodePrivateRequirement::ActiveMain, local)?;
                let all = match &request.selection {
                    NodeModelRemovalSelection::All => true,
                    NodeModelRemovalSelection::Nodes(_) => false,
                };
                if !has_target(&session.inventory, &request.service_id) || !all
                    || runtime_model_retention(request.runtime_retention)
                    != session.model_retention {
                    return Err(NodePrivateApiError::UninstallSessionConflict);
                }
                require_service(&self.composition, NodePrivateService::Model)?;
                Ok(NodePrivateStep::Call(NodePrivateCall::RemoveModel { removal: request }))
            },
            NodeUninstallRequest::RemoveRuntimeInstallation {
                installation_id,
                model_retention,
                ..
            } => {
                if model_retention != session.model_retention || !contains_id(
                    &session.inventory.runtime_installation_ids,
                    &installation_id,
                ) {
                    return Err(NodePrivateApiError::UninstallSessionConflict);
                }
                require_service(&self.composition, NodePrivateService::RuntimeMaintenance)?;
                Ok(
                    NodePrivateStep::Call(
                        NodePrivateCall::RemoveRuntimeInstallation {
                            installation_id,
                            model_retention,
                        },
                    ),
                )
            },
            NodeUninstallRequest::FinalizeRuntimeArtifacts { model_retention, .. } => {
                if model_retention != session.model_retention {
                    return Err(NodePrivateApiError::UninstallSessionConflict);
                }
                require_service(&self.composition, NodePrivateService::RuntimeMaintenance)?;
                Ok(
                    NodePrivateStep::Call(
                        NodePrivateCall::FinalizeRuntimeArtifacts { model_retention },
                    ),
                )
            },
            NodeUninstallRequest::Cancel { session_id } => {
                self.uninstall_session = None;
                Ok(NodePrivateStep::UninstallCanceled(NodeUninstallCancelReceipt::new(session_id)))
            },
        }
    }
}

#[verifier::loop_isolation(false)]
fn has_target(inventory: &NodeUninstallInventory, service_id: &ModelServiceId) -> (has: bool)
    ensures
        has == targets_service(inventory@, *service_id),
{
    let ghost services = target_services(inventory@.model_targets);
    let count: usize = inventory.model_targets.len();
    let mut i: usize = 0;
    while i < count
        invariant
            i <= count == inventory.model_targets@.len() == services.len(),
            services == target_services(inventory@.model_targets),
            forall|j: int| 0 <= j < i ==> services[j] != *service_id,
        decreases count - i,
    {
        assert(inventory@.model_targets[i as int] == inventory.model_targets@[i as int]@);
        assert(services[i as int] == inventory.model_targets@[i as int].service_id);
        if inventory.model_targets[i].service_id == *service_id {
            assert(services.contains(services[i as int]));
            return true;
        }
        i += 1;
    }
    false
}

// ---------------------------------------------------------------------------
// Host inventory
// ---------------------------------------------------------------------------

/// A value that is there, or could not be had.
#[derive(Debug)]
pub enum HostProjectionValue<M> {
    Available(M),
    Unavailable,
}

/// The hosts of every node in canonical order, and the model services if they could be listed.
#[derive(Debug)]
pub struct HostInventory<H, M> {
    pub local_node_id: NodeId,
    pub hosts: Vec<H>,
    pub model_services: HostProjectionValue<M>,
}

/// One inventory while its hosts are being read: every node, and the snapshots of the first ones.
#[derive(Debug)]
pub struct HostInventoryReading<H> {
    pub nodes: Vec<NodeId>,
    pub hosts: Vec<H>,
}

/// The snapshots of every node from one position on, in order: the first failure ends the reading.
pub open spec fn hosts_read<H>(
    nodes: Seq<NodeId>,
    snapshot: spec_fn(NodeId) -> Result<H, NodePrivateApiError>,
    hosts: Seq<H>,
) -> Result<Seq<H>, NodePrivateApiError>
    decreases nodes.len() - hosts.len(),
{
    if hosts.len() >= nodes.len() {
        Ok(hosts)
    } else {
        match snapshot(nodes[hosts.len() as int]) {
            Err(error) => Err(error),
            Ok(host) => hosts_read(nodes, snapshot, hosts.push(host)),
        }
    }
}

/// The model services of one inventory: a list that is missing or failed is only unavailable.
pub open spec fn services_projected<M>(
    model_services: Option<Result<M, NodeModelError>>,
) -> HostProjectionValue<M> {
    match model_services {
        Some(Ok(services)) => HostProjectionValue::Available(services),
        _ => HostProjectionValue::Unavailable,
    }
}

impl<H> HostInventoryReading<H> {
    /// No more hosts than nodes were read.
    pub open spec fn wf(self) -> bool {
        self.hosts@.len() <= self.nodes@.len()
    }

    /// The node whose snapshot is due.
    pub open spec fn due(self) -> Option<NodeId> {
        if self.hosts@.len() < self.nodes@.len() {
            Some(self.nodes@[self.hosts@.len() as int])
        } else {
            None
        }
    }

    /// Begins one inventory from the nodes in canonical order.
    #[verifier::loop_isolation(false)]
    pub fn start(nodes: Result<Vec<Node>, NodeManagerError>) -> (reading: Result<
        Self,
        NodePrivateApiError,
    >)
        ensures
            match nodes {
                Err(error) => reading == Err::<Self, NodePrivateApiError>(
                    NodePrivateApiError::Manager(error),
                ),
                Ok(nodes) => {
                    &&& reading matches Ok(reading)
                    &&& reading.wf()
                    &&& reading.hosts@ == Seq::<H>::empty()
                    &&& reading.nodes@ == Seq::new(
                        nodes@.len(),
                        |i: int| nodes@[i]@.identity.node_id,
                    )
                },
            },
    {
        let nodes = match nodes {
            Ok(nodes) => nodes,
            Err(error) => {
                return Err(NodePrivateApiError::Manager(error));
            },
        };
        let count: usize = nodes.len();
        let mut ids: Vec<NodeId> = Vec::new();
        let mut i: usize = 0;
        while i < count
            invariant
                i <= count == nodes@.len(),
                ids@ =~= Seq::new(i as nat, |k: int| nodes@[k]@.identity.node_id),
            decreases count - i,
        {
            ids.push(nodes[i].identity.node_id);
            i += 1;
        }
        Ok(HostInventoryReading { nodes: ids, hosts: Vec::new() })
    }

    /// Returns the node whose snapshot is due, if one is.
    pub fn next(&self) -> (node_id: Option<NodeId>)
        ensures
            node_id == self.due(),
    {
        let taken: usize = self.hosts.len();
        if taken < self.nodes.len() {
            Some(self.nodes[taken])
        } else {
            None
        }
    }

    /// Takes the snapshot that was due; a failure ends the inventory.
    pub fn take(self, snapshot: Result<H, NodePrivateApiError>) -> (reading: Result<
        Self,
        NodePrivateApiError,
    >)
        requires
            self.due() is Some,
        ensures
            match snapshot {
                Err(error) => reading == Err::<Self, NodePrivateApiError>(error),
                Ok(host) => {
                    &&& reading matches Ok(reading)
                    &&& reading.wf()
                    &&& reading.nodes == self.nodes
                    &&& reading.hosts@ == self.hosts@.push(host)
                },
            },
    {
        let host = snapshot?;
        let mut hosts = self.hosts;
        hosts.push(host);
        Ok(HostInventoryReading { nodes: self.nodes, hosts })
    }

    /// Joins the hosts with the model services once every snapshot was taken.
    pub fn finish<M>(
        self,
        local_node_id: NodeId,
        model_services: Option<Result<M, NodeModelError>>,
    ) -> (inventory: HostInventory<H, M>)
        requires
            self.due() is None,
        ensures
            inventory.local_node_id == local_node_id,
            inventory.hosts == self.hosts,
            inventory.model_services == services_projected(model_services),
    {
        let model_services = match model_services {
            Some(Ok(services)) => HostProjectionValue::Available(services),
            _ => HostProjectionValue::Unavailable,
        };
        HostInventory { local_node_id, hosts: self.hosts, model_services }
    }
}

/// Requires one host projection to have been built.
pub fn host_projected<T>(projected: Option<T>) -> (result: Result<T, NodePrivateApiError>)
    ensures
        result == (match projected {
            Some(value) => Ok::<T, NodePrivateApiError>(value),
            None => Err(NodePrivateApiError::HostProjectionUnavailable),
        }),
{
    match projected {
        Some(value) => Ok(value),
        None => Err(NodePrivateApiError::HostProjectionUnavailable),
    }
}

/// Taking the snapshot that is due, one after the other, reads one host for each node in order or
/// ends with the first failure.
pub proof fn law_hosts_are_read_in_order<H>(
    reading: HostInventoryReading<H>,
    snapshot: spec_fn(NodeId) -> Result<H, NodePrivateApiError>,
)
    requires
        reading.wf(),
    ensures
        hosts_read(reading.nodes@, snapshot, reading.hosts@) == (match reading.due() {
            None => Ok::<Seq<H>, NodePrivateApiError>(reading.hosts@),
            Some(node_id) => match snapshot(node_id) {
                Err(error) => Err(error),
                Ok(host) => hosts_read(reading.nodes@, snapshot, reading.hosts@.push(host)),
            },
        }),
        hosts_read(reading.nodes@, snapshot, reading.hosts@) matches Ok(hosts) ==> {
            &&& hosts.len() == reading.nodes@.len()
            &&& forall|i: int|
                reading.hosts@.len() <= i < hosts.len() ==> snapshot(reading.nodes@[i]) == Ok::<
                    H,
                    NodePrivateApiError,
                >(#[trigger] hosts[i])
        },
{
    lemma_hosts_read(reading.nodes@, snapshot, reading.hosts@);
}

proof fn lemma_hosts_read<H>(
    nodes: Seq<NodeId>,
    snapshot: spec_fn(NodeId) -> Result<H, NodePrivateApiError>,
    hosts: Seq<H>,
)
    requires
        hosts.len() <= nodes.len(),
    ensures
        hosts_read(nodes, snapshot, hosts) matches Ok(read) ==> {
            &&& read.len() == nodes.len()
            &&& hosts =~= read.take(hosts.len() as int)
            &&& forall|i: int|
                hosts.len() <= i < read.len() ==> snapshot(nodes[i]) == Ok::<
                    H,
                    NodePrivateApiError,
                >(#[trigger] read[i])
        },
    decreases nodes.len() - hosts.len(),
{
    if hosts.len() < nodes.len() {
        if let Ok(host) = snapshot(nodes[hosts.len() as int]) {
            let more = hosts.push(host);
            lemma_hosts_read(nodes, snapshot, more);
            if let Ok(read) = hosts_read(nodes, snapshot, more) {
                assert(read.take(more.len() as int)[hosts.len() as int] == host);
                assert(hosts =~= read.take(hosts.len() as int)) by {
                    assert forall|i: int| 0 <= i < hosts.len() implies hosts[i] == read[i] by {
                        assert(more[i] == read.take(more.len() as int)[i]);
                    }
                }
            }
        }
    }
}

// ---------------------------------------------------------------------------
// Laws
// ---------------------------------------------------------------------------

/// A local-only request is denied to every paired node and controller before anyone is asked.
pub proof fn law_local_requests_stay_local<O>(
    api: NodePrivateApiView,
    world: AuthorizationWorld,
    question: AuthorizationCall,
    request: NodePrivateRequest<O>,
    seen: NodePrivateObservationsView,
)
    requires
        local_only(request),
    ensures
        remote_dispatch(api, world, question, request, seen) == (
            api,
            world,
            Err::<NodePrivateStepView<O>, NodePrivateApiError>(
                NodePrivateApiError::AuthorizationDenied,
            ),
        ),
{
}

/// A remote request that was not authorized changes nothing and calls nothing.
pub proof fn law_denied_request_calls_nothing<O>(
    api: NodePrivateApiView,
    world: AuthorizationWorld,
    question: AuthorizationCall,
    request: NodePrivateRequest<O>,
    seen: NodePrivateObservationsView,
)
    requires
        (world.script)(world.calls.len()) is Err,
    ensures
        remote_dispatch(api, world, question, request, seen).0 == api,
        remote_dispatch(api, world, question, request, seen).2 is Err,
{
}

/// While a lease is active, nothing that could change its targets is dispatched.
pub proof fn law_lease_refuses_conflicts<O>(
    api: NodePrivateApiView,
    request: NodePrivateRequest<O>,
    seen: NodePrivateObservationsView,
)
    requires
        api.uninstall_session is Some,
        seen.barrier == UninstallBarrier::Held,
        conflicting(request),
    ensures
        authorized_dispatch(api, request, seen) == (
            api,
            Err::<NodePrivateStepView<O>, NodePrivateApiError>(
                NodePrivateApiError::UninstallInProgress,
            ),
        ),
{
}

/// Only a matching cancellation ends a lease, and nothing ever changes it.
pub proof fn law_lease_ends_only_by_cancellation<O>(
    api: NodePrivateApiView,
    request: NodePrivateRequest<O>,
    seen: NodePrivateObservationsView,
)
    requires
        api.uninstall_session is Some,
    ensures
        ({
            let after = authorized_dispatch(api, request, seen).0;
            ||| after == api
            ||| after.uninstall_session is None && (request matches NodePrivateRequest::Uninstall(
                operation,
            ) && operation is Cancel && lease_presented(operation)
                == api.uninstall_session->Some_0.session_id)
        }),
{
}

/// Beginning again with the same identity and policy replays the lease with the same inventory and
/// changes nothing; beginning with another one is a conflict.
pub proof fn law_begin_is_replayed<O>(
    api: NodePrivateApiView,
    session_id: Sha256Digest,
    model_retention: NodeRuntimeModelRetention,
    seen: NodePrivateObservationsView,
    again: NodePrivateObservationsView,
    other_session_id: Sha256Digest,
    other_retention: NodeRuntimeModelRetention,
)
    requires
        api.uninstall_session is None,
        seen.barrier == UninstallBarrier::Held,
        seen.inventory matches Some(inventory) && inventory is Ok,
        again.barrier == UninstallBarrier::Held,
    ensures
        ({
            let inventory = seen.inventory->Some_0->Ok_0;
            let (begun, first) = uninstall_begun::<O>(api, session_id, model_retention, seen);
            let (after, second) = uninstall_begun::<O>(begun, session_id, model_retention, again);
            &&& first == Ok::<NodePrivateStepView<O>, NodePrivateApiError>(
                NodePrivateStepView::UninstallBegan(
                    NodeUninstallBeginReceiptView {
                        session_id,
                        disposition: NodeUninstallSessionDisposition::Applied,
                        model_retention,
                        inventory,
                    },
                ),
            )
            &&& after == begun
            &&& second == Ok::<NodePrivateStepView<O>, NodePrivateApiError>(
                NodePrivateStepView::UninstallBegan(
                    NodeUninstallBeginReceiptView {
                        session_id,
                        disposition: NodeUninstallSessionDisposition::Replayed,
                        model_retention,
                        inventory,
                    },
                ),
            )
            &&& other_session_id != session_id || other_retention != model_retention
                ==> uninstall_begun::<O>(begun, other_session_id, other_retention, again) == (
                begun,
                Err::<NodePrivateStepView<O>, NodePrivateApiError>(
                    NodePrivateApiError::UninstallSessionConflict,
                ),
            )
        }),
{
}

/// A cancellation undoes the beginning of its lease.
pub proof fn law_cancellation_undoes_begin<O>(
    api: NodePrivateApiView,
    session_id: Sha256Digest,
    model_retention: NodeRuntimeModelRetention,
    seen: NodePrivateObservationsView,
    local: Option<Result<LocalStanding, NodeManagerError>>,
)
    requires
        api.uninstall_session is None,
        seen.barrier == UninstallBarrier::Held,
        seen.inventory matches Some(inventory) && inventory is Ok,
    ensures
        uninstall_dispatched::<O>(
            uninstall_begun::<O>(api, session_id, model_retention, seen).0,
            NodeUninstallRequest::Cancel { session_id },
            local,
        ) == (
            api,
            Ok::<NodePrivateStepView<O>, NodePrivateApiError>(
                NodePrivateStepView::UninstallCanceled(NodeUninstallCancelReceipt { session_id }),
            ),
        ),
{
}

/// Every leased call stays within the captured inventory and the leased policy.
pub proof fn law_lease_stays_within_inventory<O>(
    api: NodePrivateApiView,
    operation: NodeUninstallRequest,
    local: Option<Result<LocalStanding, NodeManagerError>>,
)
    requires
        api.uninstall_session is Some,
    ensures
        ({
            let session = api.uninstall_session->Some_0;
            uninstall_dispatched::<O>(api, operation, local).1 matches Ok(
                NodePrivateStepView::Call(call),
            ) ==> match call {
                NodePrivateCall::Answer { .. } => false,
                NodePrivateCall::StopBenchmark { job_id } => session.inventory.active_benchmark_id
                    == Some(job_id),
                NodePrivateCall::DisableMatchingExposure { configuration_sha256 } => {
                    session.inventory.exposure_configuration_sha256 == Some(configuration_sha256)
                },
                NodePrivateCall::RemoveModel { removal } => targets_service(
                    session.inventory,
                    removal.service_id,
                ) && removal.selection is All && runtime_retention(removal.runtime_retention)
                    == session.model_retention,
                NodePrivateCall::RemoveRuntimeInstallation { installation_id, model_retention } => {
                    session.inventory.runtime_installation_ids.contains(installation_id)
                        && model_retention == session.model_retention
                },
                NodePrivateCall::FinalizeRuntimeArtifacts { model_retention } => model_retention
                    == session.model_retention,
            }
        }),
{
}

/// Dispatch keeps every lease canonical and bounded, as long as the inventories that it is given
/// are.
pub proof fn law_dispatch_keeps_lease_valid<O>(
    api: NodePrivateApiView,
    request: NodePrivateRequest<O>,
    seen: NodePrivateObservationsView,
)
    requires
        api_valid(api),
        seen.inventory matches Some(Ok(inventory)) ==> inventory_valid(inventory),
        sufficient(api, request, seen),
    ensures
        api_valid(authorized_dispatch(api, request, seen).0),
{
}

/// Every captured inventory is canonical and bounded.
pub proof fn law_captured_inventory_is_valid(
    composition: NodePrivateComposition,
    seen: InventoryObservationsView,
)
    ensures
        inventory_captured(composition, seen) matches Ok(InventoryStepView::Captured(inventory))
            ==> inventory_valid(inventory),
{
}

} // verus!
