use li_node_manager::database::{DatabaseError, NodeManagerError};
use li_node_manager::digest::sha256_digest;
use li_node_manager::entity::{ModelServiceDesiredState, Node, NodeIdentity, NodeRole, NodeState};
use li_node_manager::identity::{
    ControllerId, CredentialId, DisplayName, EntityTimestamps, InstallationId, LogicalModelName,
    MachineId, ModelServiceId, NodeAddress, NodeId, OperationId, PairingInviteId, PlacementGroupId,
    RuntimeInstallationId, Sha256Digest, TechnicalName, UnixMilliseconds,
};
use li_node_manager::node_model_contract::{
    NodeModelCommandIdentity, NodeModelError, NodeModelRemovalRetention, NodeModelRemovalSelection,
    NodeModelRemoveRequest, NodeModelServiceSummary,
};
use li_node_manager::node_private_api::{
    authorize_controller_request, authorize_peer, host_projected, runtime_model_retention,
    uninstall_inventory, AuthorizationWorld, HostInventoryReading, HostProjectionValue,
    InventoryObservations, InventoryRead, InventoryStep, LocalStanding, NodeGatewayRequest,
    NodePrivateAction, NodePrivateApi, NodePrivateApiError, NodePrivateAuthorizationProvider,
    NodePrivateCall, NodePrivateObservations, NodePrivateRequest, NodePrivateResponseKind,
    NodePrivateService, NodePrivateStep, NodeRuntimeArtifactsFinalizationReceipt,
    NodeRuntimeModelRetention, NodeUninstallInventory, NodeUninstallModelTarget,
    NodeUninstallRequest, NodeUninstallSessionDisposition, UninstallBarrier,
};

type Request = NodePrivateRequest<u32>;

fn local_id() -> NodeId {
    NodeId::parse("00000000000000000000000000000001").unwrap()
}

fn principal() -> CredentialId {
    CredentialId::parse("000000000000000000000000000000cc").unwrap()
}

fn session(name: &str) -> Sha256Digest {
    sha256_digest(name.as_bytes())
}

fn service(last: u8) -> ModelServiceId {
    ModelServiceId::parse(&format!("500000000000000000000000000000{:02x}", last)).unwrap()
}

fn group(last: u8) -> PlacementGroupId {
    PlacementGroupId::parse(&format!("300000000000000000000000000000{:02x}", last)).unwrap()
}

fn runtime(last: u8) -> RuntimeInstallationId {
    RuntimeInstallationId::parse(&format!("a00000000000000000000000000000{:02x}", last)).unwrap()
}

fn job() -> OperationId {
    OperationId::parse("0000000000000000000000000000000f").unwrap()
}

fn seen(role: NodeRole, state: NodeState) -> NodePrivateObservations {
    NodePrivateObservations {
        barrier: UninstallBarrier::Held,
        local: Some(Ok(LocalStanding { role, state })),
        inventory: None,
    }
}

fn as_main() -> NodePrivateObservations {
    seen(NodeRole::Main, NodeState::Active)
}

fn inventory() -> NodeUninstallInventory {
    NodeUninstallInventory::new(
        NodeRole::Main,
        Some(job()),
        Some(session("exposure")),
        vec![NodeUninstallModelTarget::new(service(1), vec![group(1), group(2)])],
        vec![runtime(1), runtime(2)],
    )
    .unwrap()
}

fn composed() -> NodePrivateApi {
    NodePrivateApi::new(local_id())
        .with_benchmark()
        .with_exposure()
        .with_model()
        .with_runtime_maintenance()
        .with_gateway()
        .with_command_audit()
}

fn begin(api: &mut NodePrivateApi, name: &str, retention: NodeRuntimeModelRetention) -> Result<NodePrivateStep<u32>, NodePrivateApiError> {
    let request = Request::Uninstall(NodeUninstallRequest::Begin {
        session_id: session(name),
        model_retention: retention,
    });
    let mut seen = as_main();
    seen.inventory = Some(Ok(inventory()));
    api.dispatch_local(&local_id(), request, seen)
}

fn leased() -> NodePrivateApi {
    let mut api = composed();
    begin(&mut api, "lease", NodeRuntimeModelRetention::Preserve).unwrap();
    api
}

struct Authorization {
    asked: Vec<String>,
    denies: bool,
}

impl Authorization {
    fn new(denies: bool) -> Authorization {
        Authorization { asked: Vec::new(), denies }
    }

    fn answer(&mut self, question: String) -> Result<(), NodePrivateApiError> {
        self.asked.push(question);
        if self.denies {
            Err(NodePrivateApiError::AuthorizationDenied)
        } else {
            Ok(())
        }
    }
}

impl NodePrivateAuthorizationProvider for Authorization {
    fn world(&self) -> AuthorizationWorld {
        unreachable!()
    }

    fn authorize(
        &mut self,
        _principal_id: &CredentialId,
        action: NodePrivateAction,
    ) -> Result<(), NodePrivateApiError> {
        self.answer(format!("action {:?}", action))
    }

    fn authorize_controller(
        &mut self,
        _controller_id: &ControllerId,
        _certificate_sha256: &Sha256Digest,
        action: NodePrivateAction,
    ) -> Result<(), NodePrivateApiError> {
        self.answer(format!("controller {:?}", action))
    }

    fn authorize_child_transition(
        &mut self,
        _principal_id: &CredentialId,
        _node_id: &NodeId,
    ) -> Result<(), NodePrivateApiError> {
        self.answer("child transition".to_string())
    }

    fn authorize_child_read(
        &mut self,
        _principal_id: &CredentialId,
        _node_id: &NodeId,
    ) -> Result<(), NodePrivateApiError> {
        self.answer("child read".to_string())
    }
}

#[test]
fn requests_are_authorized_before_anything_is_read() {
    let mut authorization = Authorization { asked: Vec::new(), denies: false };
    let read = Request::ReadNode { node_id: local_id() };
    assert!(authorize_peer(&mut authorization, &principal(), &read).is_ok());
    assert_eq!(authorization.asked, vec!["child read"]);
    let local_only =
        Request::UpdateCore { idempotency_key: "k".to_string(), requested_version: None };
    assert!(matches!(
        authorize_peer(&mut authorization, &principal(), &local_only),
        Err(NodePrivateApiError::AuthorizationDenied)
    ));
    assert_eq!(authorization.asked.len(), 1);
    let controller = ControllerId::parse("0000000000000000000000000000000c").unwrap();
    authorization.denies = true;
    assert!(authorize_controller_request(
        &mut authorization,
        &controller,
        &session("leaf"),
        &Request::ReadPendingOutbox
    )
    .is_err());
    assert_eq!(authorization.asked.len(), 2);
    assert!(authorize_controller_request(
        &mut authorization,
        &controller,
        &session("leaf"),
        &local_only
    )
    .is_err());
    assert_eq!(authorization.asked.len(), 2);
}

#[test]
fn requests_name_their_action_service_and_answer() {
    let request = Request::StartBenchmarkVerification {
        idempotency_key: "k".to_string(),
        pull_request_url: "u".to_string(),
        runtime_candidate: None,
    };
    assert!(request.action() == NodePrivateAction::StartBenchmark);
    assert!(request.service() == Some(NodePrivateService::Benchmark));
    assert!(request.response_kind() == NodePrivateResponseKind::BenchmarkChanged);
    assert!(request.conflicts_with_uninstall());
    assert!(!request.is_local_only());
    assert!(Request::ReadPendingOutbox.action() == NodePrivateAction::ReadOutbox);
    assert!(Request::UpdateCore { idempotency_key: "k".to_string(), requested_version: None }
        .is_local_only());
    assert!(Request::Gateway(NodeGatewayRequest::AuthorizeInference(1)).conflicts_with_uninstall());
    assert!(!Request::Gateway(NodeGatewayRequest::Other(1)).conflicts_with_uninstall());
}

#[test]
fn local_requests_never_pass_remotely() {
    let mut api = composed();
    let mut authorization = Authorization::new(false);
    assert!(matches!(
        api.dispatch(&mut authorization, &principal(), Request::ReadStorage, as_main()),
        Err(NodePrivateApiError::AuthorizationDenied)
    ));
    let controller = ControllerId::parse("0000000000000000000000000000000c").unwrap();
    assert!(matches!(
        api.dispatch_controller(
            &mut authorization,
            &controller,
            &session("leaf"),
            Request::ReadStorage,
            as_main()
        ),
        Err(NodePrivateApiError::AuthorizationDenied)
    ));
    assert!(authorization.asked.is_empty());
}

#[test]
fn remote_requests_are_authorized_first() {
    let mut api = composed();
    let mut authorization = Authorization::new(true);
    assert!(matches!(
        api.dispatch(
            &mut authorization,
            &principal(),
            Request::ReadNode { node_id: local_id() },
            as_main()
        ),
        Err(NodePrivateApiError::AuthorizationDenied)
    ));
    let mut authorization = Authorization::new(false);
    for request in [
        Request::ReadNode { node_id: local_id() },
        Request::ListModels,
        Request::ReadPendingOutbox,
    ] {
        assert!(matches!(
            api.dispatch(&mut authorization, &principal(), request, as_main()),
            Ok(NodePrivateStep::Call(NodePrivateCall::Answer { .. }))
        ));
    }
    assert_eq!(authorization.asked, vec!["child read", "action ListModels", "action ReadOutbox"]);
    let controller = ControllerId::parse("0000000000000000000000000000000c").unwrap();
    let mut authorization = Authorization::new(false);
    assert!(api
        .dispatch_controller(
            &mut authorization,
            &controller,
            &session("leaf"),
            Request::ListModels,
            as_main()
        )
        .is_ok());
    assert_eq!(authorization.asked, vec!["controller ListModels"]);
}

#[test]
fn local_dispatch_needs_the_local_identity() {
    let mut api = composed();
    let other = NodeId::parse("00000000000000000000000000000002").unwrap();
    assert!(matches!(
        api.dispatch_local(&other, Request::ReadLocalNode, as_main()),
        Err(NodePrivateApiError::AuthorizationDenied)
    ));
    assert!(api.dispatch_local(&local_id(), Request::ReadLocalNode, as_main()).is_ok());
}

#[test]
fn requests_are_routed_by_standing_and_composition() {
    let mut api = composed();
    let invite = PairingInviteId::parse("11111111111111111111111111111111").unwrap();
    assert!(matches!(
        api.dispatch_authorized(
            Request::ReadPairingStatus { invite_id: invite },
            seen(NodeRole::Child, NodeState::Active)
        ),
        Err(NodePrivateApiError::ActiveMainRequired)
    ));
    assert!(matches!(
        api.dispatch_authorized(
            Request::ReadPairingStatus { invite_id: invite },
            NodePrivateObservations {
                barrier: UninstallBarrier::Held,
                local: Some(Err(NodeManagerError::Database(DatabaseError::Closed))),
                inventory: None,
            }
        ),
        Err(NodePrivateApiError::Manager(NodeManagerError::Database(DatabaseError::Closed)))
    ));
    match api.dispatch_authorized(Request::ReadPairingStatus { invite_id: invite }, as_main()) {
        Ok(NodePrivateStep::Call(NodePrivateCall::Answer { service, request, role })) => {
            assert!(service == NodePrivateService::Pairing);
            assert!(matches!(request, Request::ReadPairingStatus { .. }));
            assert!(role.is_none());
        }
        _ => panic!("the request was not routed"),
    }
    assert!(matches!(
        api.dispatch_authorized(Request::ReadStorage, as_main()),
        Err(NodePrivateApiError::Storage)
    ));
    let mut bare = NodePrivateApi::new(local_id());
    assert!(matches!(
        bare.dispatch_authorized(Request::ListModels, as_main()),
        Err(NodePrivateApiError::Model(NodeModelError::ProviderUnavailable))
    ));
    assert!(matches!(
        bare.dispatch_authorized(Request::ReadHostProjection { node_id: local_id() }, as_main()),
        Err(NodePrivateApiError::HostProjectionUnavailable)
    ));
    match api.dispatch_authorized(
        Request::Gateway(NodeGatewayRequest::Other(5)),
        seen(NodeRole::Child, NodeState::Offline),
    ) {
        Ok(NodePrivateStep::Call(NodePrivateCall::Answer { role, .. })) => {
            assert!(role == Some(NodeRole::Child))
        }
        _ => panic!("the request was not routed"),
    }
    let audit = |role: NodeRole| Request::OpenCommandAudit { local_role: role, audit: 1 };
    assert!(api.dispatch_authorized(audit(NodeRole::Main), as_main()).is_ok());
    assert!(matches!(
        api.dispatch_authorized(audit(NodeRole::Child), as_main()),
        Err(NodePrivateApiError::AuthorizationDenied)
    ));
}

#[test]
fn leases_refuse_conflicting_requests() {
    let mut api = leased();
    assert!(matches!(
        api.dispatch_authorized(Request::EnableExposure, as_main()),
        Err(NodePrivateApiError::UninstallInProgress)
    ));
    assert!(api.dispatch_authorized(Request::ReadExposure, as_main()).is_ok());
    let mut poisoned = as_main();
    poisoned.barrier = UninstallBarrier::Poisoned;
    assert!(matches!(
        composed().dispatch_authorized(Request::EnableExposure, poisoned),
        Err(NodePrivateApiError::UninstallBarrierUnavailable)
    ));
}

#[test]
fn beginning_is_replayed_with_the_same_inventory() {
    let mut api = composed();
    match begin(&mut api, "lease", NodeRuntimeModelRetention::Preserve) {
        Ok(NodePrivateStep::UninstallBegan(receipt)) => {
            assert!(receipt.disposition() == NodeUninstallSessionDisposition::Applied);
            assert!(receipt.session_id() == session("lease"));
        }
        _ => panic!("the lease was not begun"),
    }
    match begin(&mut api, "lease", NodeRuntimeModelRetention::Preserve) {
        Ok(NodePrivateStep::UninstallBegan(receipt)) => {
            assert!(receipt.disposition() == NodeUninstallSessionDisposition::Replayed);
            assert!(receipt.inventory().active_benchmark_id() == Some(job()));
            assert_eq!(receipt.inventory().model_targets().len(), 1);
        }
        _ => panic!("the lease was not replayed"),
    }
    assert!(matches!(
        begin(&mut api, "other", NodeRuntimeModelRetention::Preserve),
        Err(NodePrivateApiError::UninstallSessionConflict)
    ));
    assert!(matches!(
        begin(&mut api, "lease", NodeRuntimeModelRetention::Remove),
        Err(NodePrivateApiError::UninstallSessionConflict)
    ));
    let mut busy = as_main();
    busy.barrier = UninstallBarrier::Busy;
    assert!(matches!(
        api.dispatch_authorized(
            Request::Uninstall(NodeUninstallRequest::Begin {
                session_id: session("lease"),
                model_retention: NodeRuntimeModelRetention::Preserve,
            }),
            busy
        ),
        Err(NodePrivateApiError::UninstallBusy)
    ));
}

#[test]
fn needs_are_known_before_dispatch() {
    let api = composed();
    let begins = Request::Uninstall(NodeUninstallRequest::Begin {
        session_id: session("lease"),
        model_retention: NodeRuntimeModelRetention::Preserve,
    });
    assert!(api.needs_inventory(&begins, UninstallBarrier::Held));
    assert!(!api.needs_inventory(&begins, UninstallBarrier::Busy));
    assert!(api.needs_local(&Request::EnableExposure, UninstallBarrier::Held));
    assert!(!api.needs_local(&Request::ListModels, UninstallBarrier::Held));
    let leased = leased();
    assert!(!leased.needs_local(&Request::EnableExposure, UninstallBarrier::Held));
    let stop = Request::Uninstall(NodeUninstallRequest::StopBenchmark {
        session_id: session("lease"),
        job_id: job(),
    });
    assert!(leased.needs_local(&stop, UninstallBarrier::Held));
    assert!(!api.needs_local(&stop, UninstallBarrier::Held));
}

fn operate(api: &mut NodePrivateApi, operation: NodeUninstallRequest) -> Result<NodePrivateStep<u32>, NodePrivateApiError> {
    api.dispatch_authorized(Request::Uninstall(operation), as_main())
}

#[test]
fn cancellation_undoes_beginning() {
    let mut api = leased();
    assert!(matches!(
        operate(&mut api, NodeUninstallRequest::Cancel { session_id: session("other") }),
        Err(NodePrivateApiError::UninstallSessionConflict)
    ));
    match operate(&mut api, NodeUninstallRequest::Cancel { session_id: session("lease") }) {
        Ok(NodePrivateStep::UninstallCanceled(receipt)) => {
            assert!(*receipt.session_id() == session("lease"))
        }
        _ => panic!("the lease was not cancelled"),
    }
    assert!(api.uninstall_session.is_none());
    assert!(api.dispatch_authorized(Request::EnableExposure, as_main()).is_ok());
    assert!(matches!(
        operate(&mut api, NodeUninstallRequest::DisableExposure { session_id: session("lease") }),
        Err(NodePrivateApiError::UninstallSessionConflict)
    ));
}

fn removal(service_id: ModelServiceId, retention: NodeModelRemovalRetention, all: bool) -> NodeModelRemoveRequest {
    let selection = if all {
        NodeModelRemovalSelection::All
    } else {
        NodeModelRemovalSelection::nodes(vec![local_id()]).unwrap()
    };
    NodeModelRemoveRequest::new(
        NodeModelCommandIdentity::new(job(), TechnicalName::parse("key").unwrap()),
        service_id,
        selection,
        retention,
    )
}

#[test]
fn leased_operations_stay_within_the_inventory() {
    let mut api = leased();
    let lease = session("lease");
    match operate(&mut api, NodeUninstallRequest::StopBenchmark { session_id: lease, job_id: job() }) {
        Ok(NodePrivateStep::Call(NodePrivateCall::StopBenchmark { job_id })) => {
            assert!(job_id == job())
        }
        _ => panic!("the benchmark was not stopped"),
    }
    let other = OperationId::parse("0000000000000000000000000000000e").unwrap();
    assert!(matches!(
        operate(&mut api, NodeUninstallRequest::StopBenchmark { session_id: lease, job_id: other }),
        Err(NodePrivateApiError::UninstallSessionConflict)
    ));
    match operate(&mut api, NodeUninstallRequest::DisableExposure { session_id: lease }) {
        Ok(NodePrivateStep::Call(NodePrivateCall::DisableMatchingExposure {
            configuration_sha256,
        })) => assert!(configuration_sha256 == session("exposure")),
        _ => panic!("the exposure was not disabled"),
    }
    let remove = |service_id: ModelServiceId, retention: NodeModelRemovalRetention, all: bool| {
        NodeUninstallRequest::RemoveModel {
            session_id: lease,
            request: removal(service_id, retention, all),
        }
    };
    assert!(matches!(
        operate(&mut api, remove(service(1), NodeModelRemovalRetention::PreserveModels, true)),
        Ok(NodePrivateStep::Call(NodePrivateCall::RemoveModel { .. }))
    ));
    for refused in [
        remove(service(2), NodeModelRemovalRetention::PreserveModels, true),
        remove(service(1), NodeModelRemovalRetention::RemoveUnreferencedRuntimes, true),
        remove(service(1), NodeModelRemovalRetention::PreserveModels, false),
    ] {
        assert!(matches!(
            operate(&mut api, refused),
            Err(NodePrivateApiError::UninstallSessionConflict)
        ));
    }
    let uninstall = |installation_id: RuntimeInstallationId, retention: NodeRuntimeModelRetention| {
        NodeUninstallRequest::RemoveRuntimeInstallation {
            session_id: lease,
            installation_id,
            model_retention: retention,
        }
    };
    assert!(matches!(
        operate(&mut api, uninstall(runtime(2), NodeRuntimeModelRetention::Preserve)),
        Ok(NodePrivateStep::Call(NodePrivateCall::RemoveRuntimeInstallation { .. }))
    ));
    assert!(operate(&mut api, uninstall(runtime(3), NodeRuntimeModelRetention::Preserve)).is_err());
    assert!(operate(&mut api, uninstall(runtime(2), NodeRuntimeModelRetention::Remove)).is_err());
    assert!(matches!(
        operate(
            &mut api,
            NodeUninstallRequest::FinalizeRuntimeArtifacts {
                session_id: lease,
                model_retention: NodeRuntimeModelRetention::Preserve,
            }
        ),
        Ok(NodePrivateStep::Call(NodePrivateCall::FinalizeRuntimeArtifacts { .. }))
    ));
    assert!(api.uninstall_session.is_some());
    assert!(matches!(
        api.dispatch_authorized(
            Request::Uninstall(NodeUninstallRequest::DisableExposure { session_id: lease }),
            seen(NodeRole::Child, NodeState::Active)
        ),
        Err(NodePrivateApiError::ActiveMainRequired)
    ));
}

#[test]
fn exposure_that_was_never_there_is_disabled_already() {
    let mut api = composed();
    let bare = NodeUninstallInventory::new(NodeRole::Main, None, None, Vec::new(), Vec::new());
    let mut observed = as_main();
    observed.inventory = Some(bare);
    let request = Request::Uninstall(NodeUninstallRequest::Begin {
        session_id: session("lease"),
        model_retention: NodeRuntimeModelRetention::Remove,
    });
    api.dispatch_authorized(request, observed).unwrap();
    assert!(matches!(
        operate(&mut api, NodeUninstallRequest::DisableExposure { session_id: session("lease") }),
        Ok(NodePrivateStep::ExposureAlreadyDisabled)
    ));
}

#[test]
fn inventories_are_canonical_and_bounded() {
    let build = |role: NodeRole, targets: Vec<NodeUninstallModelTarget>, runtimes: Vec<RuntimeInstallationId>| {
        NodeUninstallInventory::new(role, None, None, targets, runtimes)
    };
    let target = |last: u8, groups: Vec<PlacementGroupId>| NodeUninstallModelTarget::new(service(last), groups);
    assert!(build(NodeRole::Main, vec![target(1, vec![]), target(2, vec![])], vec![]).is_ok());
    for broken in [
        build(NodeRole::Child, vec![target(1, vec![])], vec![]),
        build(NodeRole::Main, vec![target(2, vec![]), target(1, vec![])], vec![]),
        build(NodeRole::Main, vec![target(1, vec![group(2), group(1)])], vec![]),
        build(NodeRole::Main, vec![], vec![runtime(1), runtime(1)]),
    ] {
        assert!(matches!(broken, Err(NodePrivateApiError::UninstallBarrierUnavailable)));
    }
    assert!(NodeUninstallInventory::new(NodeRole::Child, Some(job()), None, vec![], vec![]).is_err());
    let many = |count: u32| {
        (0..count)
            .map(|at| RuntimeInstallationId::parse(&format!("{:032x}", at)).unwrap())
            .collect::<Vec<_>>()
    };
    assert!(build(NodeRole::Main, vec![], many(4096)).is_ok());
    assert!(build(NodeRole::Main, vec![], many(4097)).is_err());
    assert!(build(NodeRole::Main, vec![target(1, vec![])], many(4096)).is_err());
}

fn summary(last: u8, state: ModelServiceDesiredState) -> NodeModelServiceSummary {
    NodeModelServiceSummary::new(
        service(last),
        LogicalModelName::parse("llama").unwrap(),
        state,
        vec![group(last)],
        Vec::new(),
        Vec::new(),
    )
}

#[test]
fn inventories_are_captured_read_by_read() {
    let api = composed();
    let mut seen = InventoryObservations {
        local_role: None,
        active_benchmark: None,
        exposure: None,
        services: None,
        runtimes: None,
    };
    let expect = |seen: &InventoryObservations, read: InventoryRead| {
        match uninstall_inventory(&api.composition, seen) {
            Ok(InventoryStep::Read(next)) => assert!(next == read),
            _ => panic!("another step was taken"),
        }
    };
    expect(&seen, InventoryRead::LocalRole);
    seen.local_role = Some(Ok(NodeRole::Main));
    expect(&seen, InventoryRead::ActiveBenchmark);
    seen.active_benchmark = Some(Ok(Some(job())));
    expect(&seen, InventoryRead::Exposure);
    seen.exposure = Some(Ok(None));
    expect(&seen, InventoryRead::ModelServices);
    seen.services = Some(Ok(vec![
        summary(1, ModelServiceDesiredState::Removed),
        summary(2, ModelServiceDesiredState::Running),
    ]));
    expect(&seen, InventoryRead::RuntimeInstallations);
    seen.runtimes = Some(Ok(vec![runtime(1)]));
    match uninstall_inventory(&api.composition, &seen) {
        Ok(InventoryStep::Captured(inventory)) => {
            assert_eq!(inventory.model_targets().len(), 1);
            assert!(inventory.model_targets()[0].service_id() == service(2));
            assert!(*inventory.model_targets()[0].placement_group_ids() == vec![group(2)]);
            assert!(inventory.local_role() == NodeRole::Main);
            assert!(inventory.exposure_configuration_sha256().is_none());
        }
        _ => panic!("the inventory was not captured"),
    }
    seen.local_role = Some(Ok(NodeRole::Child));
    match uninstall_inventory(&api.composition, &seen) {
        Ok(InventoryStep::Captured(inventory)) => assert!(inventory.model_targets().is_empty()),
        _ => panic!("the inventory was not captured"),
    }
    let bare = NodePrivateApi::new(local_id());
    assert!(matches!(
        uninstall_inventory(&bare.composition, &seen),
        Err(NodePrivateApiError::RuntimeMaintenance)
    ));
}

fn node(last: u8, role: NodeRole) -> Node {
    Node {
        identity: NodeIdentity::new(
            NodeId::parse(&format!("000000000000000000000000000000{:02x}", last)).unwrap(),
            MachineId::parse("10000000000000000000000000000001").unwrap(),
            InstallationId::parse("20000000000000000000000000000001").unwrap(),
        ),
        display_name: DisplayName::parse("node").unwrap(),
        role,
        state: NodeState::Active,
        control_address: NodeAddress::parse("10.0.0.1").unwrap(),
        latest_hardware_observation_id: None,
        timestamps: EntityTimestamps::new(UnixMilliseconds::new(1), UnixMilliseconds::new(2))
            .unwrap(),
    }
}

#[test]
fn hosts_are_joined_in_order() {
    let start = || {
        HostInventoryReading::<u8>::start(Ok(vec![node(1, NodeRole::Main), node(2, NodeRole::Child)]))
            .unwrap()
    };
    let reading = start();
    assert!(reading.next() == Some(reading.nodes[0]));
    let reading = reading.take(Ok(1)).unwrap();
    assert!(reading.next() == Some(reading.nodes[1]));
    let reading = reading.take(Ok(2)).unwrap();
    assert!(reading.next().is_none());
    let inventory = reading.finish(local_id(), Some(Ok("models")));
    assert!(inventory.local_node_id == local_id());
    assert_eq!(inventory.hosts, vec![1, 2]);
    assert!(matches!(inventory.model_services, HostProjectionValue::Available("models")));
    assert!(matches!(
        start().take(Err(NodePrivateApiError::Catalog)),
        Err(NodePrivateApiError::Catalog)
    ));
    let empty = HostInventoryReading::<u8>::start(Ok(Vec::new())).unwrap();
    assert!(empty.next().is_none());
    let failed: Option<Result<u8, NodeModelError>> = Some(Err(NodeModelError::ProviderUnavailable));
    assert!(matches!(
        empty.finish(local_id(), failed).model_services,
        HostProjectionValue::Unavailable
    ));
    let empty = HostInventoryReading::<u8>::start(Ok(Vec::new())).unwrap();
    assert!(matches!(
        empty.finish::<u8>(local_id(), None).model_services,
        HostProjectionValue::Unavailable
    ));
    assert!(matches!(
        HostInventoryReading::<u8>::start(Err(NodeManagerError::NotMain)),
        Err(NodePrivateApiError::Manager(NodeManagerError::NotMain))
    ));
    assert_eq!(host_projected(Some(3)).unwrap(), 3);
    assert!(matches!(
        host_projected::<u8>(None),
        Err(NodePrivateApiError::HostProjectionUnavailable)
    ));
}

#[test]
fn private_values_keep_what_they_hold() {
    assert!(
        runtime_model_retention(NodeModelRemovalRetention::PreserveModels)
            == NodeRuntimeModelRetention::Preserve
    );
    assert!(
        runtime_model_retention(NodeModelRemovalRetention::RemoveUnreferencedRuntimes)
            == NodeRuntimeModelRetention::Remove
    );
    let receipt = NodeRuntimeArtifactsFinalizationReceipt::new(NodeRuntimeModelRetention::Remove);
    assert!(receipt.model_retention() == NodeRuntimeModelRetention::Remove);
    assert_eq!(
        NodePrivateApiError::UninstallBusy.message(""),
        "node mutation is already in progress"
    );
    assert_eq!(NodePrivateApiError::Catalog.message("detail"), "detail");
}
