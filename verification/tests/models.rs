use li_node_manager::database::{
    DatabaseCollection, DatabaseCommit, DatabaseCommitDisposition, DatabaseError, DatabaseMutation,
    DatabaseResult, DatabaseWriteResult, NodeManagerError, RecordIdentifier, Stored,
};
use li_node_manager::digest::sha256_digest;
use li_node_manager::entity::{
    BootId, DeviceId, EvidenceLabel, FailureDescription, HardwareObservation,
    InterconnectRequirement, ModelService, ModelServiceDesiredState, Operation, OperationKind,
    OperationState, OperationTarget, PlacementAssignment, PlacementError, PlacementGroup,
    PlacementGroupCapacity, PlacementGroupState, PlacementLogBatch, PlacementLogReadRequest,
    PlacementNodeResources, PlacementRecord, PlacementRequest, PlacementTask, PortRange,
    RuntimeCandidate, RuntimeError, RuntimeIdentity, RuntimeInstallation, RuntimeInstallationState,
    TaskId,
};
use li_node_manager::identity::{
    EntityTimestamps, HardwareObservationId, InstallationId, LogicalModelName, ModelServiceId,
    NodeAddress, NodeId, OperationId, PlacementGroupId, RuntimeCandidateId, RuntimeInstallationId,
    RuntimeSource, RuntimeVersion, TargetId, TechnicalName, TimeSpan, UnixMilliseconds,
};
use li_node_manager::node_model_contract::{
    planned_placement_group_id, planned_restoration_group_id, NodeModelAction,
    NodeModelCommandIdentity, NodeModelError, NodeModelInstallGroup, NodeModelInstallRequest,
    NodeModelJournal, NodeModelJournalState, NodeModelRemovalRetention, NodeModelRemovalSelection,
    NodeModelRemoveRequest, NodeModelRetainedGroup, NodeModelRetainedNode,
    NodeModelRuntimeDisposition, NodeModelRuntimeLogRequest, NodeModelUpdateDisposition,
    NodeModelUpdateRequest, VersionedNodeModelJournal, VersionedNodeModelOperation,
    VersionedNodeModelService,
};
use li_node_manager::node_model_coordinator::{NodeModelCoordinator, NodeModelExecutionClaims};
use li_node_manager::node_model_groups::NodeModelOrchestrationPorts;
use li_node_manager::node_model_journal::{
    journal_from_record, journal_record, validate_journal, DatabaseNodeModelJournalStore,
};
use li_node_manager::node_model_ports::{
    benchmark_subject, observation, NativeNodeModelPlacementRequestProvider,
    NodeBenchmarkCandidateHandoffError, PlacementObservations, PlacementRead, PlacementRequestStep,
    PlacementVerdict, RuntimeBenchmark, RuntimeExecutionManifest, RuntimeServing,
    SystemNodeModelClock,
};
use li_node_manager::node_model_world::{
    NodeModelClock, NodeModelHardwareProvider, NodeModelJournalStore, NodeModelPlacementPort,
    NodeModelPlacementRequestProvider, NodeModelPorts, NodeModelRuntimePort, NodeModelStatePort,
    NodeModelWorld, OperationCompletion,
};
use li_node_manager::sequence::Valued;

fn time(value: u64) -> UnixMilliseconds {
    UnixMilliseconds::new(value)
}

fn node(last: u8) -> NodeId {
    NodeId::parse(&format!("000000000000000000000000000000{:02x}", last)).unwrap()
}

fn operation(last: u8) -> OperationId {
    OperationId::parse(&format!("000000000000000000000000000000{:02x}", last)).unwrap()
}

fn service_id() -> ModelServiceId {
    ModelServiceId::parse("0000000000000000000000000000005e").unwrap()
}

fn model() -> LogicalModelName {
    LogicalModelName::parse("llama").unwrap()
}

fn identity(last: u8) -> NodeModelCommandIdentity {
    NodeModelCommandIdentity::new(
        operation(last),
        TechnicalName::parse(&format!("command-{}", last)).unwrap(),
    )
}

fn runtime(version: &str) -> RuntimeIdentity {
    RuntimeIdentity {
        candidate_id: RuntimeCandidateId::parse("candidate").unwrap(),
        version: RuntimeVersion::parse(version).unwrap(),
        target_id: TargetId::parse("gpu").unwrap(),
        source: RuntimeSource::parse(&format!("catalog-{}", version)).unwrap(),
        execution_contract_digest: sha256_digest(version.as_bytes()),
    }
}

fn installation(last: u8, node_id: NodeId, version: &str) -> RuntimeInstallation {
    RuntimeInstallation {
        installation_id: RuntimeInstallationId::parse(&format!(
            "0000000000000000000000000000a0{:02x}",
            last
        ))
        .unwrap(),
        node_id,
        logical_model: model(),
        runtime: runtime(version),
        artifacts: vec![sha256_digest(b"artifact")],
        state: RuntimeInstallationState::Available,
        evidence_label: EvidenceLabel { code: 1 },
    }
}

fn missing() -> NodeManagerError {
    NodeManagerError::Database(DatabaseError::NotFound {
        collection: DatabaseCollection::Services,
        identifier: RecordIdentifier::Entity(0),
    })
}

struct Fleet {
    clock: u64,
    version: &'static str,
    journals: Vec<(NodeModelJournal, u64)>,
    written: Vec<NodeModelJournal>,
    services: Vec<(ModelService, u64)>,
    operations: Vec<(Operation, u64)>,
    installations: Vec<RuntimeInstallation>,
    placements: Vec<PlacementRecord>,
    failing_stage: bool,
    calls: Vec<String>,
}

impl Fleet {
    fn new() -> Fleet {
        Fleet {
            clock: 100,
            version: "1",
            journals: Vec::new(),
            written: Vec::new(),
            services: Vec::new(),
            operations: Vec::new(),
            installations: Vec::new(),
            placements: Vec::new(),
            failing_stage: false,
            calls: Vec::new(),
        }
    }

    fn placement(&mut self, id: &PlacementGroupId) -> Result<&mut PlacementRecord, PlacementError> {
        self.placements
            .iter_mut()
            .find(|record| record.group.placement_group_id == *id)
            .ok_or(PlacementError::ExecutionUnavailable)
    }

    fn place(
        &mut self,
        id: &PlacementGroupId,
        state: PlacementGroupState,
    ) -> Result<PlacementRecord, PlacementError> {
        let record = self.placement(id)?;
        record.group.state = state;
        Ok(record.copy())
    }

    fn change_service(
        &mut self,
        id: &ModelServiceId,
        expected: u64,
        change: impl FnOnce(&ModelService) -> ModelService,
    ) -> Result<VersionedNodeModelService, NodeManagerError> {
        let (service, revision) = self
            .services
            .iter_mut()
            .find(|(service, _)| service.service_id() == *id)
            .ok_or(missing())?;
        assert_eq!(*revision, expected);
        *service = change(service);
        *revision += 1;
        Ok(VersionedNodeModelService::new(service.copy(), *revision))
    }

    fn change_operation(
        &mut self,
        id: &OperationId,
        expected: u64,
        change: impl FnOnce(&Operation) -> Operation,
    ) -> Result<VersionedNodeModelOperation, NodeManagerError> {
        let (operation, revision) = self
            .operations
            .iter_mut()
            .find(|(operation, _)| operation.operation_id() == *id)
            .ok_or(missing())?;
        assert_eq!(*revision, expected);
        *operation = change(operation);
        *revision += 1;
        Ok(VersionedNodeModelOperation::new(operation.copy(), *revision))
    }
}

fn with_groups(
    service: &ModelService,
    desired_state: ModelServiceDesiredState,
    groups: Vec<PlacementGroupId>,
) -> ModelService {
    ModelService::new(
        service.service_id(),
        service.logical_model().copy(),
        desired_state,
        groups,
        service.timestamps(),
    )
    .unwrap()
}

fn in_state(
    operation: &Operation,
    state: OperationState,
    failure: Option<FailureDescription>,
    completed_at: Option<UnixMilliseconds>,
) -> Operation {
    Operation::new(
        operation.operation_id(),
        operation.kind(),
        operation.target(),
        state,
        failure,
        completed_at,
        operation.timestamps(),
    )
    .unwrap()
}

impl NodeModelPorts for Fleet {
    fn world(&self) -> NodeModelWorld {
        unreachable!()
    }
}

impl NodeModelOrchestrationPorts for Fleet {}

impl NodeModelJournalStore for Fleet {
    fn create(
        &mut self,
        journal: NodeModelJournal,
    ) -> Result<VersionedNodeModelJournal, NodeModelError> {
        self.calls.push("journal".to_string());
        self.written.push(journal.copy());
        self.journals.push((journal.copy(), 1));
        Ok(VersionedNodeModelJournal::new(journal, 1))
    }

    fn read(
        &mut self,
        operation_id: &OperationId,
    ) -> Result<Option<VersionedNodeModelJournal>, NodeModelError> {
        Ok(self
            .journals
            .iter()
            .find(|(journal, _)| journal.operation_id == *operation_id)
            .map(|(journal, revision)| VersionedNodeModelJournal::new(journal.copy(), *revision)))
    }

    fn all(&mut self) -> Result<Vec<VersionedNodeModelJournal>, NodeModelError> {
        Ok(self
            .journals
            .iter()
            .map(|(journal, revision)| VersionedNodeModelJournal::new(journal.copy(), *revision))
            .collect())
    }

    fn replace(
        &mut self,
        journal: NodeModelJournal,
        expected_revision: u64,
    ) -> Result<VersionedNodeModelJournal, NodeModelError> {
        let stored = self
            .journals
            .iter_mut()
            .find(|(stored, _)| stored.operation_id == journal.operation_id)
            .ok_or(NodeModelError::JournalUnavailable)?;
        assert_eq!(stored.1, expected_revision);
        validate_journal(&journal).unwrap();
        *stored = (journal.copy(), expected_revision + 1);
        self.written.push(journal.copy());
        Ok(VersionedNodeModelJournal::new(journal, expected_revision + 1))
    }
}

impl NodeModelStatePort for Fleet {
    fn services(&mut self) -> Result<Vec<ModelService>, NodeManagerError> {
        Ok(self.services.iter().map(|(service, _)| service.copy()).collect())
    }

    fn service(
        &mut self,
        service_id: &ModelServiceId,
    ) -> Result<VersionedNodeModelService, NodeManagerError> {
        self.services
            .iter()
            .find(|(service, _)| service.service_id() == *service_id)
            .map(|(service, revision)| VersionedNodeModelService::new(service.copy(), *revision))
            .ok_or(missing())
    }

    fn create_service(
        &mut self,
        idempotency_key: &str,
        service: ModelService,
    ) -> Result<VersionedNodeModelService, NodeManagerError> {
        self.calls.push(format!("create service {}", idempotency_key));
        self.services.push((service.copy(), 1));
        Ok(VersionedNodeModelService::new(service, 1))
    }

    fn attach_group(
        &mut self,
        idempotency_key: &str,
        service_id: &ModelServiceId,
        placement_group_id: PlacementGroupId,
        expected_revision: u64,
        _updated_at: UnixMilliseconds,
    ) -> Result<VersionedNodeModelService, NodeManagerError> {
        self.calls.push(format!("attach {}", idempotency_key));
        self.change_service(service_id, expected_revision, |service| {
            let mut groups = service.placement_group_ids().clone();
            groups.push(placement_group_id);
            with_groups(service, service.desired_state(), groups)
        })
    }

    fn detach_group(
        &mut self,
        _idempotency_key: &str,
        service_id: &ModelServiceId,
        placement_group_id: &PlacementGroupId,
        expected_revision: u64,
        _updated_at: UnixMilliseconds,
    ) -> Result<VersionedNodeModelService, NodeManagerError> {
        self.calls.push("detach".to_string());
        let gone = *placement_group_id;
        self.change_service(service_id, expected_revision, |service| {
            let mut groups = service.placement_group_ids().clone();
            groups.retain(|id| *id != gone);
            with_groups(service, service.desired_state(), groups)
        })
    }

    fn transition_service(
        &mut self,
        _idempotency_key: &str,
        service_id: &ModelServiceId,
        desired_state: ModelServiceDesiredState,
        expected_revision: u64,
        _updated_at: UnixMilliseconds,
    ) -> Result<VersionedNodeModelService, NodeManagerError> {
        self.calls.push(format!("service {:?}", desired_state));
        self.change_service(service_id, expected_revision, |service| {
            with_groups(service, desired_state, service.placement_group_ids().clone())
        })
    }

    fn operation(
        &mut self,
        operation_id: &OperationId,
    ) -> Result<Option<VersionedNodeModelOperation>, NodeManagerError> {
        Ok(self
            .operations
            .iter()
            .find(|(operation, _)| operation.operation_id() == *operation_id)
            .map(|(operation, revision)| {
                VersionedNodeModelOperation::new(operation.copy(), *revision)
            }))
    }

    fn operations(&mut self) -> Result<Vec<Operation>, NodeManagerError> {
        Ok(self.operations.iter().map(|(operation, _)| operation.copy()).collect())
    }

    fn begin_operation(
        &mut self,
        _idempotency_key: &str,
        operation_id: OperationId,
        kind: OperationKind,
        target: OperationTarget,
        created_at: UnixMilliseconds,
    ) -> Result<VersionedNodeModelOperation, NodeManagerError> {
        let operation = Operation::new(
            operation_id,
            kind,
            target,
            OperationState::Pending,
            None,
            None,
            EntityTimestamps::new(created_at, created_at).unwrap(),
        )
        .unwrap();
        self.operations.push((operation.copy(), 1));
        Ok(VersionedNodeModelOperation::new(operation, 1))
    }

    fn start_operation(
        &mut self,
        _idempotency_key: &str,
        operation_id: &OperationId,
        expected_revision: u64,
        _started_at: UnixMilliseconds,
    ) -> Result<VersionedNodeModelOperation, NodeManagerError> {
        self.change_operation(operation_id, expected_revision, |operation| {
            in_state(operation, OperationState::Running, None, None)
        })
    }

    fn complete_operation(
        &mut self,
        _idempotency_key: &str,
        operation_id: &OperationId,
        expected_revision: u64,
        completion: OperationCompletion,
        completed_at: UnixMilliseconds,
    ) -> Result<VersionedNodeModelOperation, NodeManagerError> {
        self.change_operation(operation_id, expected_revision, |operation| {
            let (state, failure) = match completion {
                OperationCompletion::Succeeded => (OperationState::Succeeded, None),
                OperationCompletion::Cancelled => (OperationState::Cancelled, None),
                OperationCompletion::Failed(failure) => (OperationState::Failed, Some(failure)),
            };
            in_state(operation, state, failure, Some(completed_at))
        })
    }
}

impl NodeModelRuntimePort for Fleet {
    fn select(
        &mut self,
        model: &LogicalModelName,
        _explicit_candidate_id: &Option<RuntimeCandidateId>,
        _hardware: &HardwareObservation,
    ) -> Result<RuntimeCandidate, RuntimeError> {
        Ok(RuntimeCandidate {
            logical_model: model.copy(),
            runtime: runtime(self.version),
            artifacts: vec![sha256_digest(b"artifact")],
        })
    }

    fn install(
        &mut self,
        node_id: NodeId,
        _model: &LogicalModelName,
        _candidate_id: &RuntimeCandidateId,
        _hardware: &HardwareObservation,
    ) -> Result<RuntimeInstallation, RuntimeError> {
        self.calls.push("install runtime".to_string());
        let installed = installation(self.installations.len() as u8, node_id, self.version);
        self.installations.push(installed.copy());
        Ok(installed)
    }

    fn remove(
        &mut self,
        installation_id: &RuntimeInstallationId,
    ) -> Result<RuntimeInstallation, RuntimeError> {
        self.calls.push("remove runtime".to_string());
        let installed = self
            .installations
            .iter_mut()
            .find(|installed| installed.installation_id == *installation_id)
            .ok_or(RuntimeError::InstallationUnavailable)?;
        installed.state = RuntimeInstallationState::Removed;
        Ok(installed.copy())
    }

    fn remove_preserving_models(
        &mut self,
        installation_id: &RuntimeInstallationId,
    ) -> Result<RuntimeInstallation, RuntimeError> {
        NodeModelRuntimePort::remove(self, installation_id)
    }

    fn installation(
        &mut self,
        installation_id: &RuntimeInstallationId,
    ) -> Result<Option<RuntimeInstallation>, RuntimeError> {
        Ok(self
            .installations
            .iter()
            .find(|installed| installed.installation_id == *installation_id)
            .map(|installed| installed.copy()))
    }

    fn installations(&mut self) -> Result<Vec<RuntimeInstallation>, RuntimeError> {
        Ok(self.installations.iter().map(|installed| installed.copy()).collect())
    }
}

impl NodeModelPlacementPort for Fleet {
    fn stage(&mut self, request: PlacementRequest) -> Result<PlacementRecord, PlacementError> {
        self.calls.push("stage".to_string());
        if self.failing_stage {
            return Err(PlacementError::Other { code: 5 });
        }
        let record = PlacementRecord {
            group: PlacementGroup {
                placement_group_id: request.placement_group_id,
                service_id: request.service_id,
                runtime: request.runtime.copy(),
                state: PlacementGroupState::Staged,
            },
            placements: request
                .nodes
                .iter()
                .map(|node| PlacementAssignment {
                    node_id: node.node_id,
                    runtime_installation_id: node.runtime_installation_id,
                })
                .collect(),
        };
        self.placements.push(record.copy());
        Ok(record)
    }

    fn start(&mut self, id: &PlacementGroupId) -> Result<PlacementRecord, PlacementError> {
        self.calls.push("start".to_string());
        self.place(id, PlacementGroupState::Running)
    }

    fn stop(&mut self, id: &PlacementGroupId) -> Result<PlacementRecord, PlacementError> {
        self.calls.push("stop".to_string());
        self.place(id, PlacementGroupState::Stopped)
    }

    fn recover(
        &mut self,
        id: &PlacementGroupId,
        _acknowledge_protection_trips: bool,
    ) -> Result<PlacementRecord, PlacementError> {
        self.calls.push("recover".to_string());
        self.place(id, PlacementGroupState::Running)
    }

    fn remove(&mut self, id: &PlacementGroupId) -> Result<PlacementRecord, PlacementError> {
        self.calls.push("remove group".to_string());
        self.place(id, PlacementGroupState::Removed)
    }

    fn record(&mut self, id: &PlacementGroupId) -> Result<Option<PlacementRecord>, PlacementError> {
        Ok(self.placement(id).ok().map(|record| record.copy()))
    }

    fn records(&mut self) -> Result<Vec<PlacementRecord>, PlacementError> {
        Ok(self.placements.iter().map(|record| record.copy()).collect())
    }

    fn read_logs(
        &mut self,
        log_request: PlacementLogReadRequest,
    ) -> Result<PlacementLogBatch, PlacementError> {
        Ok(PlacementLogBatch {
            placement_group_id: log_request.placement_group_id,
            cursor: None,
            bytes: b"line".to_vec(),
        })
    }
}

fn placement_request(
    service_id: &ModelServiceId,
    placement_group_id: &PlacementGroupId,
    installations: &Vec<RuntimeInstallation>,
) -> PlacementRequest {
    PlacementRequest {
        placement_group_id: *placement_group_id,
        service_id: *service_id,
        runtime: installations[0].runtime.copy(),
        capacity: PlacementGroupCapacity {
            max_connections: 1,
            max_active_requests: 1,
            max_context_tokens: 1,
            interconnect: InterconnectRequirement::any(),
        },
        tasks: vec![PlacementTask {
            task_id: TaskId::parse("serve").unwrap(),
            device_count: 1,
            port_count: 1,
        }],
        nodes: installations
            .iter()
            .map(|installed| PlacementNodeResources {
                node_id: installed.node_id,
                runtime_installation_id: installed.installation_id,
                observation_id: HardwareObservationId::parse("0000000000000000000000000000000d")
                    .unwrap(),
                boot_id: BootId::parse("boot").unwrap(),
                observed_at: time(1),
                control_address: NodeAddress::parse("10.0.0.1").unwrap(),
                device_ids: vec![DeviceId::parse("gpu0").unwrap()],
                ports: PortRange { first: 9000, count: 10 },
            })
            .collect(),
        primary_task_id: TaskId::parse("serve").unwrap(),
        primary_node_id: installations[0].node_id,
        startup_order: vec![TaskId::parse("serve").unwrap()],
    }
}

fn hardware(node_id: NodeId, devices: usize) -> HardwareObservation {
    HardwareObservation {
        observation_id: HardwareObservationId::parse("0000000000000000000000000000000d").unwrap(),
        node_id,
        boot_id: BootId::parse("boot").unwrap(),
        observed_at: time(1),
        device_ids: (0..devices).map(|at| DeviceId::parse(&format!("gpu{}", at)).unwrap()).collect(),
    }
}

impl NodeModelPlacementRequestProvider for Fleet {
    fn request(
        &mut self,
        service_id: &ModelServiceId,
        _group_index: usize,
        placement_group_id: &PlacementGroupId,
        installations: &Vec<RuntimeInstallation>,
    ) -> Result<PlacementRequest, NodeModelError> {
        Ok(placement_request(service_id, placement_group_id, installations))
    }
}

impl NodeModelHardwareProvider for Fleet {
    fn observation(&mut self, node_id: &NodeId) -> Result<HardwareObservation, NodeModelError> {
        Ok(hardware(*node_id, 1))
    }
}

impl NodeModelClock for Fleet {
    fn now(&mut self) -> Result<UnixMilliseconds, NodeModelError> {
        self.clock += 1;
        Ok(time(self.clock))
    }
}

fn install_request(last: u8) -> NodeModelInstallRequest {
    NodeModelInstallRequest::new(
        identity(last),
        service_id(),
        model(),
        vec![NodeModelInstallGroup::new(vec![node(1)], None).unwrap()],
    )
    .unwrap()
}

fn installed() -> NodeModelCoordinator<Fleet> {
    let mut coordinator = NodeModelCoordinator::new(Fleet::new());
    coordinator.install(install_request(15)).unwrap();
    coordinator.ports.calls.clear();
    coordinator
}

#[test]
fn planned_groups_are_derived_from_the_command() {
    assert_eq!(
        planned_placement_group_id(&operation(15), 0).to_text(),
        "f8545a2fc8590e2b4f397d21aa5da9fb"
    );
    assert_eq!(
        planned_placement_group_id(&operation(15), 1).to_text(),
        "1cbdbc2b2fc7d4e114caec24f0847121"
    );
    assert_eq!(
        planned_restoration_group_id(&operation(15), 0).to_text(),
        "8d2e800749ca352de3da692942dcef8e"
    );
}

#[test]
fn install_commits_first_and_ends_running() {
    let mut coordinator = NodeModelCoordinator::new(Fleet::new());
    let result = coordinator.install(install_request(15)).unwrap();
    assert!(result.journal.journal.state == NodeModelJournalState::Succeeded);
    assert!(result.operation.state() == OperationState::Succeeded);
    assert!(result.service.desired_state() == ModelServiceDesiredState::Running);
    let group = planned_placement_group_id(&operation(15), 0);
    assert!(*result.service.placement_group_ids() == vec![group]);
    let fleet = &coordinator.ports;
    assert_eq!(fleet.calls[0], "journal");
    assert_eq!(
        &fleet.calls[1..],
        &[
            format!("create service command-15.service.create"),
            "install runtime".to_string(),
            "stage".to_string(),
            format!("attach command-15.group.0.attach"),
            "start".to_string(),
            "service Running".to_string(),
        ]
    );
    let receipt = &result.journal.journal.runtime_receipts[0];
    assert!(receipt.disposition == NodeModelRuntimeDisposition::Created);
}

#[test]
fn successful_install_is_replayed() {
    let mut coordinator = installed();
    let result = coordinator.install(install_request(15)).unwrap();
    assert!(result.journal.journal.state == NodeModelJournalState::Succeeded);
    assert!(coordinator.ports.calls.is_empty());
}

#[test]
fn another_command_under_the_same_identity_conflicts() {
    let mut coordinator = installed();
    let other = NodeModelInstallRequest::new(
        identity(15),
        service_id(),
        LogicalModelName::parse("other").unwrap(),
        vec![NodeModelInstallGroup::new(vec![node(1)], None).unwrap()],
    )
    .unwrap();
    assert!(matches!(coordinator.install(other), Err(NodeModelError::JournalConflict)));
}

#[test]
fn failed_install_is_compensated_and_reported() {
    let mut coordinator = NodeModelCoordinator::new(Fleet::new());
    coordinator.ports.failing_stage = true;
    let failed = coordinator.install(install_request(15));
    assert!(matches!(failed, Err(NodeModelError::Placement(PlacementError::Other { code: 5 }))));
    let fleet = &coordinator.ports;
    assert!(fleet.journals[0].0.state == NodeModelJournalState::Failed);
    assert!(fleet.operations[0].0.state() == OperationState::Failed);
    assert!(fleet.installations[0].state == RuntimeInstallationState::Removed);
    assert!(fleet.calls.contains(&"remove runtime".to_string()));
}

#[test]
fn compensation_spares_reused_runtimes() {
    let mut coordinator = NodeModelCoordinator::new(Fleet::new());
    coordinator.ports.installations.push(installation(9, node(1), "1"));
    coordinator.ports.failing_stage = true;
    assert!(coordinator.install(install_request(15)).is_err());
    let fleet = &coordinator.ports;
    assert!(fleet.installations[0].state == RuntimeInstallationState::Available);
    assert!(!fleet.calls.contains(&"remove runtime".to_string()));
    assert!(
        fleet.journals[0].0.runtime_receipts[0].disposition == NodeModelRuntimeDisposition::Reused
    );
}

#[test]
fn services_are_paused_and_resumed() {
    let mut coordinator = installed();
    let paused = coordinator.pause(identity(2), service_id()).unwrap();
    assert!(paused.service.desired_state() == ModelServiceDesiredState::Stopped);
    assert!(coordinator.ports.placements[0].group.state == PlacementGroupState::Stopped);
    let resumed = coordinator.resume(identity(3), service_id()).unwrap();
    assert!(resumed.service.desired_state() == ModelServiceDesiredState::Running);
    assert!(coordinator.ports.placements[0].group.state == PlacementGroupState::Running);
    let restarted = coordinator.restart(identity(4), service_id()).unwrap();
    assert!(restarted.journal.journal.action == NodeModelAction::Restart);
    assert!(coordinator.ports.placements[0].group.state == PlacementGroupState::Running);
}

#[test]
fn removed_services_lose_groups_and_runtimes() {
    let mut coordinator = installed();
    let removed = coordinator
        .remove(NodeModelRemoveRequest::new(
            identity(2),
            service_id(),
            NodeModelRemovalSelection::All,
            NodeModelRemovalRetention::RemoveUnreferencedRuntimes,
        ))
        .unwrap();
    assert!(removed.service.desired_state() == ModelServiceDesiredState::Removed);
    let fleet = &coordinator.ports;
    assert!(fleet.placements[0].group.state == PlacementGroupState::Removed);
    assert!(fleet.installations[0].state == RuntimeInstallationState::Removed);
}

#[test]
fn dry_run_updates_change_nothing() {
    let mut coordinator = installed();
    coordinator.ports.version = "2";
    let summary = coordinator
        .update(NodeModelUpdateRequest::new(identity(2), service_id(), None, true))
        .unwrap();
    assert!(summary.disposition == NodeModelUpdateDisposition::UpdateAvailable);
    assert!(summary.command.is_none());
    assert!(coordinator.ports.calls.is_empty());
    coordinator.ports.version = "1";
    let current = coordinator
        .update(NodeModelUpdateRequest::new(identity(3), service_id(), None, false))
        .unwrap();
    assert!(current.disposition == NodeModelUpdateDisposition::Current);
}

#[test]
fn updates_replace_groups_and_can_be_rolled_back() {
    let mut coordinator = installed();
    coordinator.ports.version = "2";
    let summary = coordinator
        .update(NodeModelUpdateRequest::new(identity(2), service_id(), None, false))
        .unwrap();
    assert!(summary.disposition == NodeModelUpdateDisposition::Updated);
    let updated = planned_placement_group_id(&operation(2), 0);
    assert!(*coordinator.ports.services[0].0.placement_group_ids() == vec![updated]);
    coordinator.ports.calls.clear();
    let preview = coordinator.preview_rollback(&service_id(), &None).unwrap();
    assert_eq!(preview.groups.len(), 1);
    assert_eq!(preview.groups[0].previous.version.as_str(), "1");
    assert_eq!(preview.groups[0].current.version.as_str(), "2");
    assert!(coordinator.ports.calls.is_empty());
    let rolled = coordinator.rollback(identity(3), service_id(), None).unwrap();
    let restored = planned_placement_group_id(&operation(3), 0);
    assert!(*rolled.service.placement_group_ids() == vec![restored]);
}

#[test]
fn every_written_journal_is_read_back() {
    let mut coordinator = installed();
    coordinator.ports.version = "2";
    coordinator
        .update(NodeModelUpdateRequest::new(identity(2), service_id(), None, false))
        .unwrap();
    coordinator.rollback(identity(3), service_id(), None).unwrap();
    coordinator.pause(identity(4), service_id()).unwrap();
    let actions: Vec<NodeModelAction> =
        coordinator.ports.written.iter().map(|journal| journal.action).collect();
    for action in [
        NodeModelAction::Install,
        NodeModelAction::Update,
        NodeModelAction::Rollback,
        NodeModelAction::Pause,
    ] {
        assert!(actions.contains(&action));
    }
    for journal in &coordinator.ports.written {
        assert!(journal_from_record(journal_record(journal)).unwrap().same(journal));
    }
}

#[test]
fn listing_and_logs_change_nothing() {
    let mut coordinator = installed();
    let services = coordinator.list_summaries().unwrap();
    assert_eq!(services.len(), 1);
    assert_eq!(services[0].runtime_installation_ids.len(), 1);
    let logs = coordinator.log_summaries(&service_id()).unwrap();
    assert!(logs.operation_ids == vec![operation(15)]);
    let request = NodeModelRuntimeLogRequest::new(
        service_id(),
        None,
        None,
        10,
        100,
        TimeSpan::from_millis(1),
    )
    .unwrap();
    let batch = coordinator.runtime_logs(request).unwrap();
    assert_eq!(batch.placement.bytes, b"line".to_vec());
    assert!(coordinator.ports.calls.is_empty());
}

#[test]
fn pending_commands_are_recovered() {
    let mut coordinator = installed();
    coordinator.ports.journals[0].0.state = NodeModelJournalState::Executing;
    coordinator.ports.operations[0].0 =
        in_state(&coordinator.ports.operations[0].0, OperationState::Running, None, None);
    let recovered = coordinator.recover_pending().unwrap();
    assert_eq!(recovered.len(), 1);
    assert!(recovered[0].journal.journal.state == NodeModelJournalState::Succeeded);
}

#[test]
fn commands_are_claimed_once() {
    let mut claims = NodeModelExecutionClaims::new();
    assert!(claims.acquire(&operation(1)).is_ok());
    assert!(matches!(claims.acquire(&operation(1)), Err(NodeModelError::JournalConflict)));
    assert!(claims.acquire(&operation(2)).is_ok());
    claims.release(&operation(1));
    assert!(claims.acquire(&operation(1)).is_ok());
}

#[test]
fn model_requests_are_bounded() {
    assert!(NodeModelInstallGroup::new(Vec::new(), None).is_err());
    assert!(NodeModelInstallGroup::new(vec![node(1), node(1)], None).is_err());
    assert!(NodeModelInstallRequest::new(identity(1), service_id(), model(), Vec::new()).is_err());
    assert!(NodeModelRemovalSelection::nodes(Vec::new()).is_err());
    let group = planned_placement_group_id(&operation(1), 0);
    let retained = NodeModelRetainedNode::new(node(1), installation(1, node(1), "1").installation_id);
    assert!(NodeModelRetainedGroup::new(
        group,
        group,
        PlacementGroupState::Starting,
        vec![retained.copy()]
    )
    .is_err());
    assert!(NodeModelRuntimeLogRequest::new(
        service_id(),
        None,
        None,
        0,
        100,
        TimeSpan::from_millis(1)
    )
    .is_err());
    assert_eq!(
        NodeModelError::InvalidRequest { reason: "x" }.message(""),
        "model command is invalid: x"
    );
    assert_eq!(
        NodeModelError::Runtime(RuntimeError::ArtifactUnavailable).message("detail"),
        "detail"
    );
}

#[test]
fn journals_round_trip_through_their_record() {
    let coordinator = installed();
    let journal = &coordinator.ports.journals[0].0;
    assert!(validate_journal(journal).is_ok());
    let read = journal_from_record(journal_record(journal)).unwrap();
    assert!(read.same(journal));
    let mut record = journal_record(journal);
    record.action = "unknown".to_string();
    assert!(matches!(journal_from_record(record), Err(NodeModelError::JournalCorrupt)));
    let mut broken = journal.copy();
    broken.planned_group_ids[0] = planned_placement_group_id(&operation(1), 0);
    assert!(matches!(validate_journal(&broken), Err(NodeModelError::JournalCorrupt)));
}

#[test]
fn journal_store_checks_its_commits() {
    let coordinator = installed();
    let journal = &coordinator.ports.journals[0].0;
    assert!(matches!(
        DatabaseNodeModelJournalStore::replace_command(journal, u64::MAX),
        Err(NodeModelError::JournalConflict)
    ));
    assert!(DatabaseNodeModelJournalStore::replace_command(journal, 1).is_ok());
    let missing_record = DatabaseError::NotFound {
        collection: DatabaseCollection::ModelLifecycles,
        identifier: RecordIdentifier::Entity(1),
    };
    assert!(matches!(DatabaseNodeModelJournalStore::read(Err(missing_record)), Ok(None)));
    let stored = Stored { value: journal_record(journal), revision: 4 };
    match DatabaseNodeModelJournalStore::read(Ok(DatabaseResult::Record(stored))) {
        Ok(Some(read)) => {
            assert_eq!(read.revision, 4);
            assert!(read.journal.same(journal));
        }
        _ => panic!("the journal was not read"),
    }
    let foreign = DatabaseWriteResult {
        commit: DatabaseCommit {
            idempotency_key: "other".to_string(),
            collection: DatabaseCollection::ModelLifecycles,
            identifier: journal.operation_id.to_text(),
            mutation: DatabaseMutation::Created,
            revision: 1,
        },
        disposition: DatabaseCommitDisposition::Applied,
    };
    assert!(matches!(
        DatabaseNodeModelJournalStore::created(journal, Ok(foreign)),
        Err(NodeModelError::JournalCorrupt)
    ));
    assert!(matches!(
        DatabaseNodeModelJournalStore::created(journal, Err(DatabaseError::Closed)),
        Err(NodeModelError::JournalUnavailable)
    ));
}

fn manifest(tasks: u16, ports: u16, devices: u16) -> RuntimeExecutionManifest {
    RuntimeExecutionManifest {
        installation_id: installation(1, node(1), "1").installation_id,
        logical_model: model(),
        tasks: (0..tasks)
            .map(|_| PlacementTask {
                task_id: TaskId::parse("serve").unwrap(),
                device_count: devices,
                port_count: ports,
            })
            .collect(),
        startup_order: vec![TaskId::parse("serve").unwrap()],
        serving: RuntimeServing {
            max_connections: 4,
            max_active_requests: 2,
            max_context_tokens: 4096,
        },
        benchmark: Some(RuntimeBenchmark {
            contract_sha256: sha256_digest(b"contract"),
            target_contract_sha256: sha256_digest(b"target"),
        }),
    }
}

#[test]
fn native_placement_reads_one_thing_after_the_other() {
    let provider = NativeNodeModelPlacementRequestProvider::new(9000, 8).unwrap();
    assert!(matches!(
        NativeNodeModelPlacementRequestProvider::new(0, 8),
        Err(NodeModelError::ProviderUnavailable)
    ));
    assert!(NativeNodeModelPlacementRequestProvider::new(65535, 2).is_err());
    let installations = vec![installation(1, node(1), "1")];
    let group = planned_placement_group_id(&operation(1), 0);
    let mut seen = PlacementObservations {
        manifest: None,
        control_address: None,
        observation: None,
        verdict: None,
    };
    let step = |seen: &PlacementObservations| {
        provider.request(&service_id(), 0, &group, &installations, seen)
    };
    assert!(matches!(
        step(&seen),
        Ok(PlacementRequestStep::Read(PlacementRead::Manifest { .. }))
    ));
    seen.manifest = Some(Ok(manifest(1, 8, 2)));
    assert!(matches!(
        step(&seen),
        Ok(PlacementRequestStep::Read(PlacementRead::ControlAddress { .. }))
    ));
    seen.control_address = Some(Ok(NodeAddress::parse("10.0.0.1").unwrap()));
    assert!(matches!(
        step(&seen),
        Ok(PlacementRequestStep::Read(PlacementRead::Observation { .. }))
    ));
    seen.observation = Some(Ok(hardware(node(1), 3)));
    let judged = match step(&seen) {
        Ok(PlacementRequestStep::Judge(request)) => request,
        _ => panic!("the request was not judged"),
    };
    assert!(judged.capacity.interconnect == InterconnectRequirement::any());
    let refused = PlacementError::Other { code: 7 };
    seen.verdict = Some(PlacementVerdict::CapacityRefused);
    assert!(matches!(step(&seen), Err(NodeModelError::ProviderUnavailable)));
    for verdict in [
        PlacementVerdict::ResourcesRefused(refused),
        PlacementVerdict::TaskRefused(refused),
        PlacementVerdict::RequestRefused(refused),
    ] {
        seen.verdict = Some(verdict);
        assert!(matches!(
            step(&seen),
            Err(NodeModelError::Placement(PlacementError::Other { code: 7 }))
        ));
    }
    seen.verdict = Some(PlacementVerdict::Accepted);
    match step(&seen) {
        Ok(PlacementRequestStep::Built(request)) => {
            assert!(request.same(&judged));
            assert_eq!(request.nodes[0].device_ids.len(), 2);
            assert_eq!(request.nodes[0].device_ids[1].as_str(), "gpu1");
            assert!(request.nodes[0].ports == PortRange { first: 9000, count: 8 });
            assert_eq!(request.capacity.max_context_tokens, 4096);
        }
        _ => panic!("the request was not built"),
    }
    seen.observation = Some(Ok(hardware(node(1), 1)));
    assert!(matches!(
        step(&seen),
        Err(NodeModelError::InvalidRequest {
            reason: "runtime task exceeds the observed accelerator envelope"
        })
    ));
    seen.manifest = Some(Ok(manifest(1, 9, 2)));
    assert!(matches!(
        step(&seen),
        Err(NodeModelError::InvalidRequest {
            reason: "runtime task exceeds the configured placement port envelope"
        })
    ));
    seen.manifest = Some(Ok(manifest(2, 1, 1)));
    assert!(matches!(step(&seen), Err(NodeModelError::ProviderUnavailable)));
    assert!(matches!(
        provider.request(&service_id(), 0, &group, &Vec::new(), &seen),
        Err(NodeModelError::InvalidRequest { .. })
    ));
}

#[test]
fn benchmark_subject_needs_the_expected_runtime() {
    let core = InstallationId::parse("000000000000000000000000000000c0").unwrap();
    let candidate = installation(1, node(1), "1");
    let group = planned_placement_group_id(&operation(1), 0);
    let expected = sha256_digest(b"1");
    let subject = benchmark_subject(
        &core,
        &candidate.installation_id,
        &group,
        &expected,
        &Ok(Some(candidate.copy())),
        &Some(manifest(1, 1, 1)),
    )
    .unwrap();
    assert!(subject.contract_sha256 == sha256_digest(b"contract"));
    assert!(subject.target_contract_sha256 == sha256_digest(b"target"));
    let refused = |digest: &[u8], state: RuntimeInstallationState| {
        let mut other = candidate.copy();
        other.state = state;
        benchmark_subject(
            &core,
            &candidate.installation_id,
            &group,
            &sha256_digest(digest),
            &Ok(Some(other)),
            &Some(manifest(1, 1, 1)),
        )
        .err()
    };
    assert!(
        refused(b"2", RuntimeInstallationState::Available)
            == Some(NodeBenchmarkCandidateHandoffError::RuntimeUnavailable)
    );
    assert!(
        refused(b"1", RuntimeInstallationState::Failed)
            == Some(NodeBenchmarkCandidateHandoffError::RuntimeUnavailable)
    );
}

#[test]
fn clock_neither_wraps_nor_truncates() {
    assert!(matches!(SystemNodeModelClock::time(Some(7)), Ok(UnixMilliseconds { value: 7 })));
    assert!(matches!(
        SystemNodeModelClock::time(Some(18446744073709551616)),
        Err(NodeModelError::ProviderUnavailable)
    ));
    assert!(matches!(
        SystemNodeModelClock::time(None),
        Err(NodeModelError::ProviderUnavailable)
    ));
    let now = SystemNodeModelClock {}.now().unwrap();
    assert!(now.value > 1_000_000_000_000);
    assert!(matches!(observation(Ok(None)), Err(NodeModelError::ProviderUnavailable)));
    assert!(matches!(observation(Err(missing())), Err(NodeModelError::StateUnavailable)));
    let failure = FailureDescription {
        code: TechnicalName::parse("code").unwrap(),
        message: "text".to_string(),
    };
    assert!(failure.copy().same(&failure));
}
