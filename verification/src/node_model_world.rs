//! The world around model orchestration: what it may be asked, what it answers, and the ports
//! through which it is asked.

use vstd::prelude::*;

use crate::database::NodeManagerError;
use crate::entity::{
    FailureDescription, FailureDescriptionView, HardwareObservation, HardwareObservationView,
    ModelService, ModelServiceDesiredState, ModelServiceView, Operation, OperationKind,
    OperationTarget, OperationView, PlacementError, PlacementLogBatch, PlacementLogBatchView,
    PlacementLogReadRequest, PlacementLogReadRequestView, PlacementRecord, PlacementRecordView,
    PlacementRequest, PlacementRequestView, RuntimeCandidate, RuntimeCandidateView, RuntimeError,
    RuntimeInstallation, RuntimeInstallationView,
};
use crate::identity::{
    LogicalModelName, ModelServiceId, NodeId, OperationId, PlacementGroupId, RuntimeCandidateId,
    RuntimeInstallationId, UnixMilliseconds,
};
use crate::node_model_contract::{
    NodeModelError, NodeModelJournal, NodeModelJournalView, VersionedNodeModelJournal,
    VersionedNodeModelJournalView, VersionedNodeModelOperation, VersionedNodeModelOperationView,
    VersionedNodeModelService, VersionedNodeModelServiceView,
};
use crate::sequence::{found, listed, outcome, viewed, views};

verus! {

/// Describes one terminal outcome requested for a running operation.
#[derive(Debug)]
pub enum OperationCompletion {
    Succeeded,
    Failed(FailureDescription),
    Cancelled,
}

/// What one [`OperationCompletion`] holds.
pub enum OperationCompletionView {
    Succeeded,
    Failed(FailureDescriptionView),
    Cancelled,
}

impl View for OperationCompletion {
    type V = OperationCompletionView;

    open spec fn view(&self) -> OperationCompletionView {
        match self {
            OperationCompletion::Succeeded => OperationCompletionView::Succeeded,
            OperationCompletion::Failed(failure) => OperationCompletionView::Failed(failure@),
            OperationCompletion::Cancelled => OperationCompletionView::Cancelled,
        }
    }
}

/// One call that orchestration makes, with everything that it hands over.
pub enum NodeModelCall {
    CreateJournal { journal: NodeModelJournalView },
    ReadJournal { operation_id: OperationId },
    AllJournals,
    ReplaceJournal { journal: NodeModelJournalView, expected_revision: u64 },
    Services,
    Service { service_id: ModelServiceId },
    CreateService { idempotency_key: Seq<char>, service: ModelServiceView },
    AttachGroup {
        idempotency_key: Seq<char>,
        service_id: ModelServiceId,
        placement_group_id: PlacementGroupId,
        expected_revision: u64,
        updated_at: UnixMilliseconds,
    },
    DetachGroup {
        idempotency_key: Seq<char>,
        service_id: ModelServiceId,
        placement_group_id: PlacementGroupId,
        expected_revision: u64,
        updated_at: UnixMilliseconds,
    },
    TransitionService {
        idempotency_key: Seq<char>,
        service_id: ModelServiceId,
        desired_state: ModelServiceDesiredState,
        expected_revision: u64,
        updated_at: UnixMilliseconds,
    },
    Operation { operation_id: OperationId },
    Operations,
    BeginOperation {
        idempotency_key: Seq<char>,
        operation_id: OperationId,
        kind: OperationKind,
        target: OperationTarget,
        created_at: UnixMilliseconds,
    },
    StartOperation {
        idempotency_key: Seq<char>,
        operation_id: OperationId,
        expected_revision: u64,
        started_at: UnixMilliseconds,
    },
    CompleteOperation {
        idempotency_key: Seq<char>,
        operation_id: OperationId,
        expected_revision: u64,
        completion: OperationCompletionView,
        completed_at: UnixMilliseconds,
    },
    SelectRuntime {
        model: Seq<char>,
        explicit_candidate_id: Option<Seq<char>>,
        hardware: HardwareObservationView,
    },
    InstallRuntime {
        node_id: NodeId,
        model: Seq<char>,
        candidate_id: Seq<char>,
        hardware: HardwareObservationView,
    },
    RemoveRuntime { installation_id: RuntimeInstallationId },
    RemoveRuntimePreservingModels { installation_id: RuntimeInstallationId },
    Installation { installation_id: RuntimeInstallationId },
    Installations,
    StageGroup { request: PlacementRequestView },
    StartGroup { placement_group_id: PlacementGroupId },
    StopGroup { placement_group_id: PlacementGroupId },
    RecoverGroup { placement_group_id: PlacementGroupId, acknowledge_protection_trips: bool },
    RemoveGroup { placement_group_id: PlacementGroupId },
    GroupRecord { placement_group_id: PlacementGroupId },
    GroupRecords,
    ReadLogs { log_request: PlacementLogReadRequestView },
    PlacementRequestFor {
        service_id: ModelServiceId,
        group_index: usize,
        placement_group_id: PlacementGroupId,
        installations: Seq<RuntimeInstallationView>,
    },
    Observation { node_id: NodeId },
    Now,
}

impl NodeModelCall {
    /// Calls that may change state outside the coordinator.
    pub open spec fn mutates(self) -> bool {
        match self {
            NodeModelCall::CreateJournal { .. } => true,
            NodeModelCall::ReplaceJournal { .. } => true,
            NodeModelCall::CreateService { .. } => true,
            NodeModelCall::AttachGroup { .. } => true,
            NodeModelCall::DetachGroup { .. } => true,
            NodeModelCall::TransitionService { .. } => true,
            NodeModelCall::BeginOperation { .. } => true,
            NodeModelCall::StartOperation { .. } => true,
            NodeModelCall::CompleteOperation { .. } => true,
            NodeModelCall::InstallRuntime { .. } => true,
            NodeModelCall::RemoveRuntime { .. } => true,
            NodeModelCall::RemoveRuntimePreservingModels { .. } => true,
            NodeModelCall::StageGroup { .. } => true,
            NodeModelCall::StartGroup { .. } => true,
            NodeModelCall::StopGroup { .. } => true,
            NodeModelCall::RecoverGroup { .. } => true,
            NodeModelCall::RemoveGroup { .. } => true,
            _ => false,
        }
    }
}

/// Everything that the ports will answer: for each kind of call, the reply that is given when the
/// call is made at a position of the trace.
pub struct NodeModelScript {
    pub create_journal: spec_fn(nat) -> Result<VersionedNodeModelJournalView, NodeModelError>,
    pub read_journal: spec_fn(nat) -> Result<Option<VersionedNodeModelJournalView>, NodeModelError>,
    pub all_journals: spec_fn(nat) -> Result<Seq<VersionedNodeModelJournalView>, NodeModelError>,
    pub replace_journal: spec_fn(nat) -> Result<VersionedNodeModelJournalView, NodeModelError>,
    pub services: spec_fn(nat) -> Result<Seq<ModelServiceView>, NodeManagerError>,
    pub service: spec_fn(nat) -> Result<VersionedNodeModelServiceView, NodeManagerError>,
    pub create_service: spec_fn(nat) -> Result<VersionedNodeModelServiceView, NodeManagerError>,
    pub attach_group: spec_fn(nat) -> Result<VersionedNodeModelServiceView, NodeManagerError>,
    pub detach_group: spec_fn(nat) -> Result<VersionedNodeModelServiceView, NodeManagerError>,
    pub transition_service: spec_fn(nat) -> Result<VersionedNodeModelServiceView, NodeManagerError>,
    pub operation: spec_fn(nat) -> Result<Option<VersionedNodeModelOperationView>, NodeManagerError>,
    pub operations: spec_fn(nat) -> Result<Seq<OperationView>, NodeManagerError>,
    pub begin_operation: spec_fn(nat) -> Result<VersionedNodeModelOperationView, NodeManagerError>,
    pub start_operation: spec_fn(nat) -> Result<VersionedNodeModelOperationView, NodeManagerError>,
    pub complete_operation: spec_fn(nat) -> Result<VersionedNodeModelOperationView, NodeManagerError>,
    pub select_runtime: spec_fn(nat) -> Result<RuntimeCandidateView, RuntimeError>,
    pub install_runtime: spec_fn(nat) -> Result<RuntimeInstallationView, RuntimeError>,
    pub remove_runtime: spec_fn(nat) -> Result<RuntimeInstallationView, RuntimeError>,
    pub remove_runtime_preserving_models: spec_fn(nat) -> Result<RuntimeInstallationView, RuntimeError>,
    pub installation: spec_fn(nat) -> Result<Option<RuntimeInstallationView>, RuntimeError>,
    pub installations: spec_fn(nat) -> Result<Seq<RuntimeInstallationView>, RuntimeError>,
    pub stage_group: spec_fn(nat) -> Result<PlacementRecordView, PlacementError>,
    pub start_group: spec_fn(nat) -> Result<PlacementRecordView, PlacementError>,
    pub stop_group: spec_fn(nat) -> Result<PlacementRecordView, PlacementError>,
    pub recover_group: spec_fn(nat) -> Result<PlacementRecordView, PlacementError>,
    pub remove_group: spec_fn(nat) -> Result<PlacementRecordView, PlacementError>,
    pub group_record: spec_fn(nat) -> Result<Option<PlacementRecordView>, PlacementError>,
    pub group_records: spec_fn(nat) -> Result<Seq<PlacementRecordView>, PlacementError>,
    pub read_logs: spec_fn(nat) -> Result<PlacementLogBatchView, PlacementError>,
    pub placement_request_for: spec_fn(nat) -> Result<PlacementRequestView, NodeModelError>,
    pub observation: spec_fn(nat) -> Result<HardwareObservationView, NodeModelError>,
    pub now: spec_fn(nat) -> Result<UnixMilliseconds, NodeModelError>,
}

/// The ports together: what they will answer, and which calls were made so far, in order.
pub struct NodeModelWorld {
    pub script: NodeModelScript,
    pub calls: Seq<NodeModelCall>,
}

impl NodeModelWorld {
    /// The world after one more call.
    pub open spec fn after(self, call: NodeModelCall) -> NodeModelWorld {
        NodeModelWorld { script: self.script, calls: self.calls.push(call) }
    }

    /// Creates one normalized command before any manager or provider mutation.
    pub open spec fn create_journal(
        self,
        journal: NodeModelJournalView,
    ) -> (NodeModelWorld, Result<VersionedNodeModelJournalView, NodeModelError>) {
        (
            self.after(NodeModelCall::CreateJournal { journal }),
            (self.script.create_journal)(self.calls.len()),
        )
    }

    /// Returns one exact command journal when it exists.
    pub open spec fn read_journal(
        self,
        operation_id: OperationId,
    ) -> (NodeModelWorld, Result<Option<VersionedNodeModelJournalView>, NodeModelError>) {
        (
            self.after(NodeModelCall::ReadJournal { operation_id }),
            (self.script.read_journal)(self.calls.len()),
        )
    }

    /// Returns every journal in stable operation identity order.
    pub open spec fn all_journals(
        self,
    ) -> (NodeModelWorld, Result<Seq<VersionedNodeModelJournalView>, NodeModelError>) {
        (self.after(NodeModelCall::AllJournals), (self.script.all_journals)(self.calls.len()))
    }

    /// Replaces one exact journal revision.
    pub open spec fn replace_journal(
        self,
        journal: NodeModelJournalView,
        expected_revision: u64,
    ) -> (NodeModelWorld, Result<VersionedNodeModelJournalView, NodeModelError>) {
        (
            self.after(NodeModelCall::ReplaceJournal { journal, expected_revision }),
            (self.script.replace_journal)(self.calls.len()),
        )
    }

    /// Returns every durable logical model service.
    pub open spec fn services(
        self,
    ) -> (NodeModelWorld, Result<Seq<ModelServiceView>, NodeManagerError>) {
        (self.after(NodeModelCall::Services), (self.script.services)(self.calls.len()))
    }

    /// Returns one exact service and its optimistic revision.
    pub open spec fn service(
        self,
        service_id: ModelServiceId,
    ) -> (NodeModelWorld, Result<VersionedNodeModelServiceView, NodeManagerError>) {
        (self.after(NodeModelCall::Service { service_id }), (self.script.service)(self.calls.len()))
    }

    /// Creates one empty stopped service before provider mutation.
    pub open spec fn create_service(
        self,
        idempotency_key: Seq<char>,
        service: ModelServiceView,
    ) -> (NodeModelWorld, Result<VersionedNodeModelServiceView, NodeManagerError>) {
        (
            self.after(NodeModelCall::CreateService { idempotency_key, service }),
            (self.script.create_service)(self.calls.len()),
        )
    }

    /// Attaches one exact group after it is staged.
    pub open spec fn attach_group(
        self,
        idempotency_key: Seq<char>,
        service_id: ModelServiceId,
        placement_group_id: PlacementGroupId,
        expected_revision: u64,
        updated_at: UnixMilliseconds,
    ) -> (NodeModelWorld, Result<VersionedNodeModelServiceView, NodeManagerError>) {
        (
            self.after(
                NodeModelCall::AttachGroup {
                    idempotency_key,
                    service_id,
                    placement_group_id,
                    expected_revision,
                    updated_at,
                },
            ),
            (self.script.attach_group)(self.calls.len()),
        )
    }

    /// Detaches one exact group only after it is released.
    pub open spec fn detach_group(
        self,
        idempotency_key: Seq<char>,
        service_id: ModelServiceId,
        placement_group_id: PlacementGroupId,
        expected_revision: u64,
        updated_at: UnixMilliseconds,
    ) -> (NodeModelWorld, Result<VersionedNodeModelServiceView, NodeManagerError>) {
        (
            self.after(
                NodeModelCall::DetachGroup {
                    idempotency_key,
                    service_id,
                    placement_group_id,
                    expected_revision,
                    updated_at,
                },
            ),
            (self.script.detach_group)(self.calls.len()),
        )
    }

    /// Applies one complete model-service desired-state transition.
    pub open spec fn transition_service(
        self,
        idempotency_key: Seq<char>,
        service_id: ModelServiceId,
        desired_state: ModelServiceDesiredState,
        expected_revision: u64,
        updated_at: UnixMilliseconds,
    ) -> (NodeModelWorld, Result<VersionedNodeModelServiceView, NodeManagerError>) {
        (
            self.after(
                NodeModelCall::TransitionService {
                    idempotency_key,
                    service_id,
                    desired_state,
                    expected_revision,
                    updated_at,
                },
            ),
            (self.script.transition_service)(self.calls.len()),
        )
    }

    /// Returns one exact user-visible operation when it exists.
    pub open spec fn operation(
        self,
        operation_id: OperationId,
    ) -> (NodeModelWorld, Result<Option<VersionedNodeModelOperationView>, NodeManagerError>) {
        (
            self.after(NodeModelCall::Operation { operation_id }),
            (self.script.operation)(self.calls.len()),
        )
    }

    /// Returns every user-visible operation.
    pub open spec fn operations(
        self,
    ) -> (NodeModelWorld, Result<Seq<OperationView>, NodeManagerError>) {
        (self.after(NodeModelCall::Operations), (self.script.operations)(self.calls.len()))
    }

    /// Creates one pending user-visible operation.
    pub open spec fn begin_operation(
        self,
        idempotency_key: Seq<char>,
        operation_id: OperationId,
        kind: OperationKind,
        target: OperationTarget,
        created_at: UnixMilliseconds,
    ) -> (NodeModelWorld, Result<VersionedNodeModelOperationView, NodeManagerError>) {
        (
            self.after(
                NodeModelCall::BeginOperation {
                    idempotency_key,
                    operation_id,
                    kind,
                    target,
                    created_at,
                },
            ),
            (self.script.begin_operation)(self.calls.len()),
        )
    }

    /// Advances one pending user-visible operation.
    pub open spec fn start_operation(
        self,
        idempotency_key: Seq<char>,
        operation_id: OperationId,
        expected_revision: u64,
        started_at: UnixMilliseconds,
    ) -> (NodeModelWorld, Result<VersionedNodeModelOperationView, NodeManagerError>) {
        (
            self.after(
                NodeModelCall::StartOperation {
                    idempotency_key,
                    operation_id,
                    expected_revision,
                    started_at,
                },
            ),
            (self.script.start_operation)(self.calls.len()),
        )
    }

    /// Completes one pending or running user-visible operation.
    pub open spec fn complete_operation(
        self,
        idempotency_key: Seq<char>,
        operation_id: OperationId,
        expected_revision: u64,
        completion: OperationCompletionView,
        completed_at: UnixMilliseconds,
    ) -> (NodeModelWorld, Result<VersionedNodeModelOperationView, NodeManagerError>) {
        (
            self.after(
                NodeModelCall::CompleteOperation {
                    idempotency_key,
                    operation_id,
                    expected_revision,
                    completion,
                    completed_at,
                },
            ),
            (self.script.complete_operation)(self.calls.len()),
        )
    }

    /// Selects one exact compatible candidate without applying evidence policy.
    pub open spec fn select_runtime(
        self,
        model: Seq<char>,
        explicit_candidate_id: Option<Seq<char>>,
        hardware: HardwareObservationView,
    ) -> (NodeModelWorld, Result<RuntimeCandidateView, RuntimeError>) {
        (
            self.after(NodeModelCall::SelectRuntime { model, explicit_candidate_id, hardware }),
            (self.script.select_runtime)(self.calls.len()),
        )
    }

    /// Installs one exact selected candidate on an authenticated node.
    pub open spec fn install_runtime(
        self,
        node_id: NodeId,
        model: Seq<char>,
        candidate_id: Seq<char>,
        hardware: HardwareObservationView,
    ) -> (NodeModelWorld, Result<RuntimeInstallationView, RuntimeError>) {
        (
            self.after(NodeModelCall::InstallRuntime { node_id, model, candidate_id, hardware }),
            (self.script.install_runtime)(self.calls.len()),
        )
    }

    /// Removes one exact installation.
    pub open spec fn remove_runtime(
        self,
        installation_id: RuntimeInstallationId,
    ) -> (NodeModelWorld, Result<RuntimeInstallationView, RuntimeError>) {
        (
            self.after(NodeModelCall::RemoveRuntime { installation_id }),
            (self.script.remove_runtime)(self.calls.len()),
        )
    }

    /// Removes one exact installation while retaining its model artifacts for exact reuse.
    pub open spec fn remove_runtime_preserving_models(
        self,
        installation_id: RuntimeInstallationId,
    ) -> (NodeModelWorld, Result<RuntimeInstallationView, RuntimeError>) {
        (
            self.after(NodeModelCall::RemoveRuntimePreservingModels { installation_id }),
            (self.script.remove_runtime_preserving_models)(self.calls.len()),
        )
    }

    /// Returns one exact installation when it exists.
    pub open spec fn installation(
        self,
        installation_id: RuntimeInstallationId,
    ) -> (NodeModelWorld, Result<Option<RuntimeInstallationView>, RuntimeError>) {
        (
            self.after(NodeModelCall::Installation { installation_id }),
            (self.script.installation)(self.calls.len()),
        )
    }

    /// Returns every exact installation in stable identity order.
    pub open spec fn installations(
        self,
    ) -> (NodeModelWorld, Result<Seq<RuntimeInstallationView>, RuntimeError>) {
        (self.after(NodeModelCall::Installations), (self.script.installations)(self.calls.len()))
    }

    /// Allocates and stages one complete group.
    pub open spec fn stage_group(
        self,
        request: PlacementRequestView,
    ) -> (NodeModelWorld, Result<PlacementRecordView, PlacementError>) {
        (
            self.after(NodeModelCall::StageGroup { request }),
            (self.script.stage_group)(self.calls.len()),
        )
    }

    /// Starts one exact complete group.
    pub open spec fn start_group(
        self,
        placement_group_id: PlacementGroupId,
    ) -> (NodeModelWorld, Result<PlacementRecordView, PlacementError>) {
        (
            self.after(NodeModelCall::StartGroup { placement_group_id }),
            (self.script.start_group)(self.calls.len()),
        )
    }

    /// Stops one exact complete group while retaining assignments.
    pub open spec fn stop_group(
        self,
        placement_group_id: PlacementGroupId,
    ) -> (NodeModelWorld, Result<PlacementRecordView, PlacementError>) {
        (
            self.after(NodeModelCall::StopGroup { placement_group_id }),
            (self.script.stop_group)(self.calls.len()),
        )
    }

    /// Recovers one exact complete group.
    pub open spec fn recover_group(
        self,
        placement_group_id: PlacementGroupId,
        acknowledge_protection_trips: bool,
    ) -> (NodeModelWorld, Result<PlacementRecordView, PlacementError>) {
        (
            self.after(
                NodeModelCall::RecoverGroup {
                    placement_group_id,
                    acknowledge_protection_trips,
                },
            ),
            (self.script.recover_group)(self.calls.len()),
        )
    }

    /// Removes one exact complete group and releases assignments.
    pub open spec fn remove_group(
        self,
        placement_group_id: PlacementGroupId,
    ) -> (NodeModelWorld, Result<PlacementRecordView, PlacementError>) {
        (
            self.after(NodeModelCall::RemoveGroup { placement_group_id }),
            (self.script.remove_group)(self.calls.len()),
        )
    }

    /// Returns one exact authoritative group aggregate when it exists.
    pub open spec fn group_record(
        self,
        placement_group_id: PlacementGroupId,
    ) -> (NodeModelWorld, Result<Option<PlacementRecordView>, PlacementError>) {
        (
            self.after(NodeModelCall::GroupRecord { placement_group_id }),
            (self.script.group_record)(self.calls.len()),
        )
    }

    /// Returns every authoritative group aggregate in stable identity order.
    pub open spec fn group_records(
        self,
    ) -> (NodeModelWorld, Result<Seq<PlacementRecordView>, PlacementError>) {
        (self.after(NodeModelCall::GroupRecords), (self.script.group_records)(self.calls.len()))
    }

    /// Reads one bounded opaque runtime-log batch from an exact placement group.
    pub open spec fn read_logs(
        self,
        log_request: PlacementLogReadRequestView,
    ) -> (NodeModelWorld, Result<PlacementLogBatchView, PlacementError>) {
        (
            self.after(NodeModelCall::ReadLogs { log_request }),
            (self.script.read_logs)(self.calls.len()),
        )
    }

    /// Returns one exact model-neutral placement request for a planned group.
    pub open spec fn placement_request_for(
        self,
        service_id: ModelServiceId,
        group_index: usize,
        placement_group_id: PlacementGroupId,
        installations: Seq<RuntimeInstallationView>,
    ) -> (NodeModelWorld, Result<PlacementRequestView, NodeModelError>) {
        (
            self.after(
                NodeModelCall::PlacementRequestFor {
                    service_id,
                    group_index,
                    placement_group_id,
                    installations,
                },
            ),
            (self.script.placement_request_for)(self.calls.len()),
        )
    }

    /// Returns one current boot-scoped observation for the exact node.
    pub open spec fn observation(
        self,
        node_id: NodeId,
    ) -> (NodeModelWorld, Result<HardwareObservationView, NodeModelError>) {
        (
            self.after(NodeModelCall::Observation { node_id }),
            (self.script.observation)(self.calls.len()),
        )
    }

    /// Returns current Unix time in milliseconds.
    pub open spec fn now(self) -> (NodeModelWorld, Result<UnixMilliseconds, NodeModelError>) {
        (self.after(NodeModelCall::Now), (self.script.now)(self.calls.len()))
    }

}

/// One owner of ports whose calls are observed in one common order.
pub trait NodeModelPorts {
    /// The answers that are still to come and the calls that were made.
    spec fn world(&self) -> NodeModelWorld;
}

/// Defines the sole durable cross-manager command journal.
pub trait NodeModelJournalStore: NodeModelPorts {
    /// Creates one normalized command before any manager or provider mutation.
    fn create(
        &mut self,
        journal: NodeModelJournal,
    ) -> (reply: Result<VersionedNodeModelJournal, NodeModelError>)
        ensures
            (final(self).world(), outcome(reply)) == old(self).world().create_journal(journal@),
    ;

    /// Returns one exact command journal when it exists.
    fn read(
        &mut self,
        operation_id: &OperationId,
    ) -> (reply: Result<Option<VersionedNodeModelJournal>, NodeModelError>)
        ensures
            (final(self).world(), found(reply)) == old(self).world().read_journal(*operation_id),
    ;

    /// Returns every journal in stable operation identity order.
    fn all(&mut self) -> (reply: Result<Vec<VersionedNodeModelJournal>, NodeModelError>)
        ensures
            (final(self).world(), listed(reply)) == old(self).world().all_journals(),
    ;

    /// Replaces one exact journal revision.
    fn replace(
        &mut self,
        journal: NodeModelJournal,
        expected_revision: u64,
    ) -> (reply: Result<VersionedNodeModelJournal, NodeModelError>)
        ensures
            (final(self).world(), outcome(reply)) == old(self).world().replace_journal(
                journal@,
                expected_revision,
            ),
    ;
}

/// Defines the exact node state capability consumed by model orchestration.
pub trait NodeModelStatePort: NodeModelPorts {
    /// Returns every durable logical model service.
    fn services(&mut self) -> (reply: Result<Vec<ModelService>, NodeManagerError>)
        ensures
            (final(self).world(), listed(reply)) == old(self).world().services(),
    ;

    /// Returns one exact service and its optimistic revision.
    fn service(
        &mut self,
        service_id: &ModelServiceId,
    ) -> (reply: Result<VersionedNodeModelService, NodeManagerError>)
        ensures
            (final(self).world(), outcome(reply)) == old(self).world().service(*service_id),
    ;

    /// Creates one empty stopped service before provider mutation.
    fn create_service(
        &mut self,
        idempotency_key: &str,
        service: ModelService,
    ) -> (reply: Result<VersionedNodeModelService, NodeManagerError>)
        ensures
            (final(self).world(), outcome(reply)) == old(self).world().create_service(
                idempotency_key@,
                service@,
            ),
    ;

    /// Attaches one exact group after it is staged.
    fn attach_group(
        &mut self,
        idempotency_key: &str,
        service_id: &ModelServiceId,
        placement_group_id: PlacementGroupId,
        expected_revision: u64,
        updated_at: UnixMilliseconds,
    ) -> (reply: Result<VersionedNodeModelService, NodeManagerError>)
        ensures
            (final(self).world(), outcome(reply)) == old(self).world().attach_group(
                idempotency_key@,
                *service_id,
                placement_group_id,
                expected_revision,
                updated_at,
            ),
    ;

    /// Detaches one exact group only after it is released.
    fn detach_group(
        &mut self,
        idempotency_key: &str,
        service_id: &ModelServiceId,
        placement_group_id: &PlacementGroupId,
        expected_revision: u64,
        updated_at: UnixMilliseconds,
    ) -> (reply: Result<VersionedNodeModelService, NodeManagerError>)
        ensures
            (final(self).world(), outcome(reply)) == old(self).world().detach_group(
                idempotency_key@,
                *service_id,
                *placement_group_id,
                expected_revision,
                updated_at,
            ),
    ;

    /// Applies one complete model-service desired-state transition.
    fn transition_service(
        &mut self,
        idempotency_key: &str,
        service_id: &ModelServiceId,
        desired_state: ModelServiceDesiredState,
        expected_revision: u64,
        updated_at: UnixMilliseconds,
    ) -> (reply: Result<VersionedNodeModelService, NodeManagerError>)
        ensures
            (final(self).world(), outcome(reply)) == old(self).world().transition_service(
                idempotency_key@,
                *service_id,
                desired_state,
                expected_revision,
                updated_at,
            ),
    ;

    /// Returns one exact user-visible operation when it exists.
    fn operation(
        &mut self,
        operation_id: &OperationId,
    ) -> (reply: Result<Option<VersionedNodeModelOperation>, NodeManagerError>)
        ensures
            (final(self).world(), found(reply)) == old(self).world().operation(*operation_id),
    ;

    /// Returns every user-visible operation.
    fn operations(&mut self) -> (reply: Result<Vec<Operation>, NodeManagerError>)
        ensures
            (final(self).world(), listed(reply)) == old(self).world().operations(),
    ;

    /// Creates one pending user-visible operation.
    fn begin_operation(
        &mut self,
        idempotency_key: &str,
        operation_id: OperationId,
        kind: OperationKind,
        target: OperationTarget,
        created_at: UnixMilliseconds,
    ) -> (reply: Result<VersionedNodeModelOperation, NodeManagerError>)
        ensures
            (final(self).world(), outcome(reply)) == old(self).world().begin_operation(
                idempotency_key@,
                operation_id,
                kind,
                target,
                created_at,
            ),
    ;

    /// Advances one pending user-visible operation.
    fn start_operation(
        &mut self,
        idempotency_key: &str,
        operation_id: &OperationId,
        expected_revision: u64,
        started_at: UnixMilliseconds,
    ) -> (reply: Result<VersionedNodeModelOperation, NodeManagerError>)
        ensures
            (final(self).world(), outcome(reply)) == old(self).world().start_operation(
                idempotency_key@,
                *operation_id,
                expected_revision,
                started_at,
            ),
    ;

    /// Completes one pending or running user-visible operation.
    fn complete_operation(
        &mut self,
        idempotency_key: &str,
        operation_id: &OperationId,
        expected_revision: u64,
        completion: OperationCompletion,
        completed_at: UnixMilliseconds,
    ) -> (reply: Result<VersionedNodeModelOperation, NodeManagerError>)
        ensures
            (final(self).world(), outcome(reply)) == old(self).world().complete_operation(
                idempotency_key@,
                *operation_id,
                expected_revision,
                completion@,
                completed_at,
            ),
    ;
}

/// Defines runtime selection, acquisition, projection, and cleanup for Node.
pub trait NodeModelRuntimePort: NodeModelPorts {
    /// Selects one exact compatible candidate without applying evidence policy.
    fn select(
        &mut self,
        model: &LogicalModelName,
        explicit_candidate_id: &Option<RuntimeCandidateId>,
        hardware: &HardwareObservation,
    ) -> (reply: Result<RuntimeCandidate, RuntimeError>)
        ensures
            (final(self).world(), outcome(reply)) == old(self).world().select_runtime(
                model@,
                viewed(*explicit_candidate_id),
                hardware@,
            ),
    ;

    /// Installs one exact selected candidate on an authenticated node.
    fn install(
        &mut self,
        node_id: NodeId,
        model: &LogicalModelName,
        candidate_id: &RuntimeCandidateId,
        hardware: &HardwareObservation,
    ) -> (reply: Result<RuntimeInstallation, RuntimeError>)
        ensures
            (final(self).world(), outcome(reply)) == old(self).world().install_runtime(
                node_id,
                model@,
                candidate_id@,
                hardware@,
            ),
    ;

    /// Removes one exact installation.
    fn remove(
        &mut self,
        installation_id: &RuntimeInstallationId,
    ) -> (reply: Result<RuntimeInstallation, RuntimeError>)
        ensures
            (final(self).world(), outcome(reply)) == old(self).world().remove_runtime(
                *installation_id,
            ),
    ;

    /// Removes one exact installation while retaining its model artifacts for exact reuse.
    fn remove_preserving_models(
        &mut self,
        installation_id: &RuntimeInstallationId,
    ) -> (reply: Result<RuntimeInstallation, RuntimeError>)
        ensures
            (final(self).world(), outcome(reply)) == old(self).world().remove_runtime_preserving_models(
                *installation_id,
            ),
    ;

    /// Returns one exact installation when it exists.
    fn installation(
        &mut self,
        installation_id: &RuntimeInstallationId,
    ) -> (reply: Result<Option<RuntimeInstallation>, RuntimeError>)
        ensures
            (final(self).world(), found(reply)) == old(self).world().installation(*installation_id),
    ;

    /// Returns every exact installation in stable identity order.
    fn installations(&mut self) -> (reply: Result<Vec<RuntimeInstallation>, RuntimeError>)
        ensures
            (final(self).world(), listed(reply)) == old(self).world().installations(),
    ;
}

/// Defines placement lifecycle and authoritative aggregate projection for Node.
pub trait NodeModelPlacementPort: NodeModelPorts {
    /// Allocates and stages one complete group.
    fn stage(
        &mut self,
        request: PlacementRequest,
    ) -> (reply: Result<PlacementRecord, PlacementError>)
        ensures
            (final(self).world(), outcome(reply)) == old(self).world().stage_group(request@),
    ;

    /// Starts one exact complete group.
    fn start(
        &mut self,
        placement_group_id: &PlacementGroupId,
    ) -> (reply: Result<PlacementRecord, PlacementError>)
        ensures
            (final(self).world(), outcome(reply)) == old(self).world().start_group(
                *placement_group_id,
            ),
    ;

    /// Stops one exact complete group while retaining assignments.
    fn stop(
        &mut self,
        placement_group_id: &PlacementGroupId,
    ) -> (reply: Result<PlacementRecord, PlacementError>)
        ensures
            (final(self).world(), outcome(reply)) == old(self).world().stop_group(
                *placement_group_id,
            ),
    ;

    /// Recovers one exact complete group.
    fn recover(
        &mut self,
        placement_group_id: &PlacementGroupId,
        acknowledge_protection_trips: bool,
    ) -> (reply: Result<PlacementRecord, PlacementError>)
        ensures
            (final(self).world(), outcome(reply)) == old(self).world().recover_group(
                *placement_group_id,
                acknowledge_protection_trips,
            ),
    ;

    /// Removes one exact complete group and releases assignments.
    fn remove(
        &mut self,
        placement_group_id: &PlacementGroupId,
    ) -> (reply: Result<PlacementRecord, PlacementError>)
        ensures
            (final(self).world(), outcome(reply)) == old(self).world().remove_group(
                *placement_group_id,
            ),
    ;

    /// Returns one exact authoritative group aggregate when it exists.
    fn record(
        &mut self,
        placement_group_id: &PlacementGroupId,
    ) -> (reply: Result<Option<PlacementRecord>, PlacementError>)
        ensures
            (final(self).world(), found(reply)) == old(self).world().group_record(
                *placement_group_id,
            ),
    ;

    /// Returns every authoritative group aggregate in stable identity order.
    fn records(&mut self) -> (reply: Result<Vec<PlacementRecord>, PlacementError>)
        ensures
            (final(self).world(), listed(reply)) == old(self).world().group_records(),
    ;

    /// Reads one bounded opaque runtime-log batch from an exact placement group.
    fn read_logs(
        &mut self,
        log_request: PlacementLogReadRequest,
    ) -> (reply: Result<PlacementLogBatch, PlacementError>)
        ensures
            (final(self).world(), outcome(reply)) == old(self).world().read_logs(log_request@),
    ;
}

/// Reconstructs one fully typed placement request from durable installation receipts.
pub trait NodeModelPlacementRequestProvider: NodeModelPorts {
    /// Returns one exact model-neutral placement request for a planned group.
    fn request(
        &mut self,
        service_id: &ModelServiceId,
        group_index: usize,
        placement_group_id: &PlacementGroupId,
        installations: &Vec<RuntimeInstallation>,
    ) -> (reply: Result<PlacementRequest, NodeModelError>)
        ensures
            (final(self).world(), outcome(reply)) == old(self).world().placement_request_for(
                *service_id,
                group_index,
                *placement_group_id,
                views(installations@),
            ),
    ;
}

/// Supplies current hardware observations for exact authenticated nodes.
pub trait NodeModelHardwareProvider: NodeModelPorts {
    /// Returns one current boot-scoped observation for the exact node.
    fn observation(
        &mut self,
        node_id: &NodeId,
    ) -> (reply: Result<HardwareObservation, NodeModelError>)
        ensures
            (final(self).world(), outcome(reply)) == old(self).world().observation(*node_id),
    ;
}

/// Supplies model lifecycle time explicitly.
pub trait NodeModelClock: NodeModelPorts {
    /// Returns current Unix time in milliseconds.
    fn now(&mut self) -> (reply: Result<UnixMilliseconds, NodeModelError>)
        ensures
            (final(self).world(), outcome(reply)) == old(self).world().now(),
    ;
}

} // verus!
