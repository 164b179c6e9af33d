use li_node_manager::database::{
    DatabaseCollection, DatabaseCommit, DatabaseCommitDisposition, DatabaseError, DatabaseMutation,
    DatabaseResult, DatabaseRevision, DatabaseTransactionResult, DatabaseWriteResult,
    NodeManagerError, RecordIdentifier, Stored,
};
use li_node_manager::digest::sha256_digest;
use li_node_manager::entity::{
    BootId, HardwareObservation, ModelService, ModelServiceDesiredState, Node, NodeIdentity,
    NodeRole, NodeState, OperationKind, OperationState, OperationTarget,
};
use li_node_manager::identity::{
    ControllerId, CredentialId, DisplayName, EntityTimestamps, HardwareObservationId,
    InstallationId, LogicalModelName, MachineId, ModelServiceId, NodeAddress, NodeId, OperationId,
    PlacementGroupId, Sha256Digest, TechnicalName, UnixMilliseconds,
};
use li_node_manager::node_manager::{
    desired_node_state, model_service_committed, scoped_idempotency_key, NodeManager,
    NodeManagerChange, NodeStep, NodeTransition,
};
use li_node_manager::node_model_world::OperationCompletion;
use li_node_manager::node_outbox::{
    event_identity, outbox_acknowledged, outbox_from_record, outbox_record, pending_outbox_event,
    NodeManagerEvent, NodeOutboxState, OutboxStep, VersionedNodeOutboxEvent,
};
use li_node_manager::node_pairing_activation_authority::{
    conclude_activation, conclude_restoration, plan_activation, plan_restoration,
    NodePairedChildActivationRequest, NodePairedMainRestorationRequest,
    NodePairingActivationAuthorityError, NodePairingAuthorityDisposition,
    NodePairingAuthorityReceipt, RestorationPlan,
};
use li_node_manager::node_pairing_api::NodePairingCredentials;
use li_node_manager::node_pairing_enrollment::{
    paired_child_transaction_revision, paired_main_restoration_revision,
};
use li_node_manager::node_peer_credential_database::{
    database_bucket, peer_credentials, saved, AuthenticationStoreError, BucketResult,
    ControllerRole, CoreNodePrincipalResolver, DatabasePeerCredentialStore,
    NodePrivateRemotePrincipal, NodePrivateRemoteTlsError, PeerCredential, PeerCredentialDirection,
    PeerCredentialError, PeerCredentialState, PeerCredentialWrite, PeerPrincipal, PrincipalEvent,
    PrincipalStep, RegisteredController, VersionedPeerCredential,
};
use li_node_manager::node_role::{LocalNodeRoleTransition, RoleStep};
use li_node_manager::sequence::Valued;

fn time(value: u64) -> UnixMilliseconds {
    UnixMilliseconds::new(value)
}

fn id(last: u8) -> NodeId {
    NodeId::parse(&format!("000000000000000000000000000000{:02x}", last)).unwrap()
}

fn node(last: u8, role: NodeRole, state: NodeState) -> Node {
    Node {
        identity: NodeIdentity::new(
            id(last),
            MachineId::parse(&format!("100000000000000000000000000000{:02x}", last)).unwrap(),
            InstallationId::parse(&format!("200000000000000000000000000000{:02x}", last)).unwrap(),
        ),
        display_name: DisplayName::parse("node").unwrap(),
        role,
        state,
        control_address: NodeAddress::parse(&format!("10.0.0.{}", last)).unwrap(),
        latest_hardware_observation_id: None,
        timestamps: EntityTimestamps::new(time(1), time(2)).unwrap(),
    }
}

fn main_node() -> Node {
    node(1, NodeRole::Main, NodeState::Active)
}

fn not_found() -> DatabaseError {
    DatabaseError::NotFound {
        collection: DatabaseCollection::Nodes,
        identifier: RecordIdentifier::Entity(1),
    }
}

fn service_id() -> ModelServiceId {
    ModelServiceId::parse("0000000000000000000000000000005e").unwrap()
}

fn group(last: u8) -> PlacementGroupId {
    PlacementGroupId::parse(&format!("300000000000000000000000000000{:02x}", last)).unwrap()
}

fn service(state: ModelServiceDesiredState, groups: Vec<PlacementGroupId>) -> ModelService {
    ModelService::new(
        service_id(),
        LogicalModelName::parse("llama").unwrap(),
        state,
        groups,
        EntityTimestamps::new(time(1), time(2)).unwrap(),
    )
    .unwrap()
}

#[test]
fn node_states_follow_their_table() {
    let next = |current: NodeState, transition: NodeTransition| {
        desired_node_state(&id(2), current, transition)
    };
    assert!(matches!(next(NodeState::Pending, NodeTransition::Activate), Ok(NodeState::Active)));
    assert!(matches!(next(NodeState::Active, NodeTransition::Activate), Ok(NodeState::Active)));
    assert!(matches!(
        next(NodeState::Removed, NodeTransition::Activate),
        Err(NodeManagerError::InvalidNodeTransition { current: "removed", .. })
    ));
}

#[test]
fn only_children_are_transitioned_and_only_by_an_active_main() {
    let transition = |local: &Node, target: Node, revision: u64| {
        let target_id = target.identity.node_id;
        NodeManager::transition_child(
            local,
            &id(1),
            "key",
            Stored { value: target, revision: 4 },
            &target_id,
            revision,
            NodeTransition::Activate,
            time(9),
        )
    };
    let commit =
        transition(&main_node(), node(2, NodeRole::Child, NodeState::Pending), 4).unwrap();
    assert!(commit.value.state == NodeState::Active);
    assert!(commit.value.timestamps.updated_at == time(9));
    assert!(matches!(
        transition(
            &node(1, NodeRole::Child, NodeState::Active),
            node(2, NodeRole::Child, NodeState::Pending),
            4
        ),
        Err(NodeManagerError::NotMain)
    ));
    assert!(transition(&main_node(), node(1, NodeRole::Main, NodeState::Active), 4).is_err());
}

#[test]
fn services_are_created_once() {
    let create = |existing: Option<Stored<ModelService>>, others: Vec<ModelService>| {
        NodeManager::create_model_service(
            &main_node(),
            "key",
            service(ModelServiceDesiredState::Stopped, Vec::new()),
            Ok(existing),
            &Ok(others),
        )
    };
    let unread = || NodeManagerError::Database(not_found());
    assert!(matches!(
        NodeManager::create_model_service(
            &node(1, NodeRole::Child, NodeState::Active),
            "key",
            service(ModelServiceDesiredState::Stopped, Vec::new()),
            Err(unread()),
            &Err(unread()),
        ),
        Err(NodeManagerError::NotMain)
    ));
    assert!(matches!(
        NodeManager::create_model_service(
            &main_node(),
            "key",
            service(ModelServiceDesiredState::Running, Vec::new()),
            Err(unread()),
            &Err(unread()),
        ),
        Err(NodeManagerError::InvalidModelService { .. })
    ));
    assert!(matches!(
        NodeManager::create_model_service(
            &main_node(),
            "key",
            service(ModelServiceDesiredState::Stopped, Vec::new()),
            Ok(None),
            &Err(unread()),
        ),
        Err(NodeManagerError::Database(_))
    ));
    assert!(matches!(create(None, Vec::new()), Ok(NodeStep::Commit(_))));
    let same = Stored { value: service(ModelServiceDesiredState::Stopped, Vec::new()), revision: 3 };
    assert!(matches!(create(Some(same), Vec::new()), Ok(NodeStep::Observed(_))));
    let model = service(ModelServiceDesiredState::Stopped, Vec::new());
    let other = ModelService::new(
        ModelServiceId::parse("0000000000000000000000000000005f").unwrap(),
        model.logical_model().copy(),
        model.desired_state(),
        Vec::new(),
        model.timestamps(),
    )
    .unwrap();
    assert!(matches!(
        create(None, vec![other]),
        Err(NodeManagerError::InvalidModelService { .. })
    ));
}

#[test]
fn detaching_undoes_attaching() {
    let current = |groups: Vec<PlacementGroupId>| Stored {
        value: service(ModelServiceDesiredState::Running, groups),
        revision: 3,
    };
    let attached = match NodeManager::attach_placement_group(
        &main_node(),
        "key",
        current(vec![group(1)]),
        group(2),
        3,
        time(5),
    ) {
        Ok(NodeStep::Commit(commit)) => commit.value,
        _ => panic!("the group was not attached"),
    };
    assert!(*attached.placement_group_ids() == vec![group(1), group(2)]);
    match NodeManager::detach_placement_group(
        &main_node(),
        "key",
        Stored { value: attached, revision: 4 },
        &group(2),
        4,
        time(6),
    ) {
        Ok(NodeStep::Commit(commit)) => {
            assert!(*commit.value.placement_group_ids() == vec![group(1)])
        }
        _ => panic!("the group was not detached"),
    }
    assert!(matches!(
        NodeManager::attach_placement_group(
            &main_node(),
            "key",
            current(Vec::new()),
            group(2),
            2,
            time(5)
        ),
        Err(NodeManagerError::Database(DatabaseError::Conflict { .. }))
    ));
}

#[test]
fn removed_services_stay_removed() {
    let removed = Stored {
        value: service(ModelServiceDesiredState::Removed, Vec::new()),
        revision: 3,
    };
    assert!(matches!(
        NodeManager::transition_model_service(
            &main_node(),
            "key",
            removed,
            ModelServiceDesiredState::Running,
            3,
            time(9)
        ),
        Err(NodeManagerError::InvalidModelService { .. })
    ));
}

#[test]
fn committed_services_report_their_revision() {
    let commit = match NodeManager::attach_placement_group(
        &main_node(),
        "key",
        Stored { value: service(ModelServiceDesiredState::Running, Vec::new()), revision: 3 },
        group(2),
        3,
        time(5),
    ) {
        Ok(NodeStep::Commit(commit)) => commit,
        _ => panic!("the group was not attached"),
    };
    let result = DatabaseTransactionResult {
        commits: vec![
            DatabaseCommit {
                idempotency_key: "key".to_string(),
                collection: DatabaseCollection::Services,
                identifier: service_id().to_text(),
                mutation: DatabaseMutation::Updated,
                revision: 4,
            },
            DatabaseCommit {
                idempotency_key: "key".to_string(),
                collection: DatabaseCollection::Outbox,
                identifier: "event".to_string(),
                mutation: DatabaseMutation::Created,
                revision: 1,
            },
        ],
        disposition: DatabaseCommitDisposition::Applied,
    };
    let change = model_service_committed(commit, Ok(result)).unwrap();
    assert_eq!(change.revision(), 4);
    assert!(change.event().is_some());
}

#[test]
fn observations_of_another_node_are_refused() {
    let observation = HardwareObservation {
        observation_id: HardwareObservationId::parse("0000000000000000000000000000000d").unwrap(),
        node_id: id(2),
        boot_id: BootId::parse("boot").unwrap(),
        observed_at: time(5),
        device_ids: Vec::new(),
    };
    let record = |observation: HardwareObservation| {
        NodeManager::record_local_hardware_observation(
            &id(1),
            "key",
            Stored { value: main_node(), revision: 2 },
            2,
            observation,
            Err(not_found()),
        )
    };
    assert!(matches!(
        record(observation.copy()),
        Err(NodeManagerError::InvalidHardwareObservation { .. })
    ));
    let mut own = observation;
    own.node_id = id(1);
    assert!(matches!(record(own), Ok(NodeStep::Commit(_))));
}

#[test]
fn ended_operations_are_final() {
    let operation_id = OperationId::parse("0000000000000000000000000000000f").unwrap();
    let begun = NodeManager::begin_operation(
        "key",
        operation_id,
        OperationKind::Install,
        OperationTarget::Node(id(1)),
        time(1),
    )
    .unwrap()
    .value;
    assert!(begun.state() == OperationState::Pending);
    let started =
        NodeManager::start_operation("key", &operation_id, begun, 1, time(2)).unwrap().value;
    assert!(started.state() == OperationState::Running);
    let ended = NodeManager::complete_operation(
        "key",
        &operation_id,
        started,
        2,
        OperationCompletion::Succeeded,
        time(3),
    )
    .unwrap()
    .value;
    assert!(ended.state() == OperationState::Succeeded);
    assert!(ended.completed_at() == Some(time(3)));
    assert!(matches!(
        NodeManager::start_operation("key", &operation_id, ended, 3, time(4)),
        Err(NodeManagerError::InvalidOperationTransition { current: "succeeded", .. })
    ));
}

#[test]
fn keys_are_scoped() {
    assert_eq!(scoped_idempotency_key("command", "identity").unwrap(), "command:identity");
    assert!(matches!(
        scoped_idempotency_key(&"x".repeat(255), "identity"),
        Err(NodeManagerError::CorruptState { .. })
    ));
}

#[test]
fn queries_tell_records_from_collections() {
    let one = NodeManager::node(Ok(DatabaseResult::Record(Stored { value: main_node(), revision: 7 })));
    assert_eq!(one.unwrap().revision(), 7);
    assert!(matches!(
        NodeManager::local_node(Ok(DatabaseResult::Records(Vec::new()))),
        Err(NodeManagerError::CorruptState { reason: "single-node query returned a collection" })
    ));
    assert!(matches!(
        NodeManager::nodes(Err(DatabaseError::Closed)),
        Err(NodeManagerError::Database(DatabaseError::Closed))
    ));
    let two = vec![
        Stored { value: main_node(), revision: 1 },
        Stored { value: node(2, NodeRole::Child, NodeState::Active), revision: 2 },
    ];
    let main = NodeManager::main_node(Ok(DatabaseResult::Records(two))).unwrap();
    assert!(main.value().identity.node_id == id(1));
}

#[test]
fn local_roles_change_with_their_authority() {
    let main = node(2, NodeRole::Main, NodeState::Active);
    let step = NodeManager::transition_local_role(
        Stored { value: main_node(), revision: 3 },
        &LocalNodeRoleTransition::BecomeChild { main: main.copy() },
        &Ok(None),
        &Ok(vec![Stored { value: main_node(), revision: 3 }]),
    );
    match step {
        Ok(RoleStep::Change(change)) => {
            assert!(change.target == NodeRole::Child);
            assert!(change.authority.identity.node_id == id(2));
        }
        _ => panic!("the role was not changed"),
    }
    let clash = node(1, NodeRole::Main, NodeState::Active);
    assert!(NodeManager::transition_local_role(
        Stored { value: main_node(), revision: 3 },
        &LocalNodeRoleTransition::BecomeChild { main: clash },
        &Ok(None),
        &Ok(vec![Stored { value: main_node(), revision: 3 }]),
    )
    .is_err());
}

#[test]
fn children_are_enrolled_pending_and_distinct() {
    let enroll = |child: Node, transaction: &str| {
        NodeManager::enroll_child_with_transaction(
            &main_node(),
            &id(1),
            "key",
            transaction,
            child,
            &Ok(None),
            &Ok(vec![Stored { value: main_node(), revision: 3 }]),
        )
    };
    let pending = node(2, NodeRole::Child, NodeState::Pending);
    assert!(enroll(pending.copy(), "key").is_ok());
    assert!(matches!(
        enroll(pending, "other"),
        Err(NodeManagerError::InvalidNodeEnrollment { .. })
    ));
    assert!(matches!(
        enroll(node(2, NodeRole::Child, NodeState::Active), "key"),
        Err(NodeManagerError::InvalidNodeEnrollment { .. })
    ));
}

#[test]
fn outbox_events_round_trip_and_are_acknowledged_once() {
    let event = NodeManagerEvent::NodeActivated { node_id: id(2) };
    let (kind, entity) = event_identity(&event);
    assert_eq!(entity, id(2).to_text());
    let pending = pending_outbox_event("key", &event, time(4)).unwrap();
    assert_eq!(pending.kind().as_str(), kind);
    assert!(pending.state() == NodeOutboxState::Pending);
    assert!(outbox_from_record(outbox_record(&pending)).unwrap().same(&pending));
    let event_id = pending.event_id();
    let step = NodeManager::acknowledge_outbox_event(
        VersionedNodeOutboxEvent::new(pending.copy(), 1),
        1,
        time(5),
    );
    let acknowledged = match step {
        Ok(OutboxStep::Save { event, .. }) => event,
        _ => panic!("the event was not acknowledged"),
    };
    assert!(acknowledged.acknowledged_at() == Some(time(5)));
    assert!(acknowledged.event_id() == event_id);
    assert!(matches!(
        NodeManager::acknowledge_outbox_event(
            VersionedNodeOutboxEvent::new(acknowledged.copy(), 2),
            2,
            time(6)
        ),
        Ok(OutboxStep::Observed(_))
    ));
    let result = DatabaseWriteResult {
        commit: DatabaseCommit {
            idempotency_key: "key".to_string(),
            collection: DatabaseCollection::Outbox,
            identifier: event_id.to_text(),
            mutation: DatabaseMutation::Updated,
            revision: 2,
        },
        disposition: DatabaseCommitDisposition::Applied,
    };
    assert_eq!(outbox_acknowledged(acknowledged, Ok(result)).unwrap().revision(), 2);
    let waiting = NodeManager::pending_outbox_events(&vec![VersionedNodeOutboxEvent::new(pending, 1)]);
    assert_eq!(waiting.len(), 1);
}

#[test]
fn manager_errors_have_fixed_texts() {
    assert!(!NodeManagerError::NotMain.message("").is_empty());
    assert_eq!(NodeManagerError::Database(DatabaseError::Closed).message("detail"), "detail");
}

fn leaf() -> Sha256Digest {
    sha256_digest(b"leaf")
}

fn credential() -> PeerCredential {
    PeerCredential {
        credential_id: leaf().credential_id(),
        peer_leaf_sha256: leaf(),
        local_node_id: id(1),
        peer_node_id: id(2),
        direction: PeerCredentialDirection::MainToChild,
        state: PeerCredentialState::Active,
        issued_at: time(1),
        expires_at: time(100),
        revoked_at: None,
        rotated_to: None,
    }
}

fn stored_bucket(revision: u64) -> BucketResult {
    Ok(DatabaseResult::Record(Stored { value: database_bucket(&credential()), revision }))
}

#[test]
fn credentials_round_trip_through_their_bucket() {
    let mut rotated = credential();
    rotated.revoked_at = Some(time(9));
    rotated.rotated_to = Some(CredentialId::parse("0123456789abcdef0123456789abcdef").unwrap());
    let bucket = database_bucket(&rotated);
    assert_eq!(bucket.credentials[0].direction, "main_to_child");
    assert_eq!(bucket.credentials[0].state, "active");
    let read = peer_credentials(&bucket, 3, &leaf()).unwrap();
    assert!(read == vec![VersionedPeerCredential { credential: rotated, revision: 3 }]);
    assert_eq!(peer_credentials(&bucket, 0, &leaf()), Err(AuthenticationStoreError::Corrupt));
    assert_eq!(
        peer_credentials(&bucket, 3, &sha256_digest(b"other")),
        Err(AuthenticationStoreError::Corrupt)
    );
    let mut broken = database_bucket(&credential());
    broken.credentials[0].state = "unknown".to_string();
    assert!(peer_credentials(&broken, 3, &leaf()).is_err());
    assert!(PeerCredential::new_with_state(PeerCredential { expires_at: time(1), ..credential() })
        .is_err());
}

#[test]
fn credential_lookups_are_bounded() {
    assert!(DatabasePeerCredentialStore::exact_credential(&stored_bucket(3), &leaf())
        == Ok(Some(VersionedPeerCredential { credential: credential(), revision: 3 })));
    assert!(
        DatabasePeerCredentialStore::exact_credential(&Err(not_found()), &leaf()) == Ok(None)
    );
    assert_eq!(
        DatabasePeerCredentialStore::exact_credential(&Err(DatabaseError::Closed), &leaf()),
        Err(AuthenticationStoreError::Unavailable)
    );
    assert_eq!(
        DatabasePeerCredentialStore::matching_peer_credentials(&stored_bucket(3), &leaf(), 3),
        Err(AuthenticationStoreError::Corrupt)
    );
    let all: BucketResult = Ok(DatabaseResult::Records(vec![Stored {
        value: database_bucket(&credential()),
        revision: 3,
    }]));
    let found = DatabasePeerCredentialStore::matching_peer_credential_ids(
        &all,
        &credential().credential_id,
        1,
    );
    assert_eq!(found.unwrap().len(), 1);
    let other = CredentialId::parse("0123456789abcdef0123456789abcdef").unwrap();
    let none = DatabasePeerCredentialStore::matching_peer_credential_ids(&all, &other, 1);
    assert!(none.unwrap().is_empty());
}

#[test]
fn credential_writes_expect_a_revision() {
    assert!(matches!(
        DatabasePeerCredentialStore::create(&credential()),
        PeerCredentialWrite::Save { expected: DatabaseRevision::Missing, .. }
    ));
    assert!(matches!(
        DatabasePeerCredentialStore::replace(&credential(), 4),
        Ok(PeerCredentialWrite::Save { expected: DatabaseRevision::Exact(4), .. })
    ));
    assert!(matches!(
        DatabasePeerCredentialStore::deleting_transaction(&leaf(), 0),
        Err(AuthenticationStoreError::Corrupt)
    ));
    let written = |revision: u64| {
        Ok(DatabaseWriteResult {
            commit: DatabaseCommit {
                idempotency_key: "key".to_string(),
                collection: DatabaseCollection::PeerCredentials,
                identifier: leaf().to_text(),
                mutation: DatabaseMutation::Created,
                revision,
            },
            disposition: DatabaseCommitDisposition::Applied,
        })
    };
    let change = saved(&credential(), &written(3), &stored_bucket(3)).unwrap();
    assert!(change.credential().credential == credential());
    assert!(change.disposition() == DatabaseCommitDisposition::Applied);
    assert_eq!(
        saved(&credential(), &written(4), &stored_bucket(3)),
        Err(AuthenticationStoreError::Conflict)
    );
}

#[test]
fn principals_are_resolved_in_order() {
    let resolver = CoreNodePrincipalResolver::new(id(1));
    let peer = |local: NodeId, direction: PeerCredentialDirection| {
        Ok(PeerPrincipal {
            credential_id: leaf().credential_id(),
            local_node_id: local,
            direction,
        })
    };
    assert!(
        resolver.judge_peer(peer(id(1), PeerCredentialDirection::ChildToMain))
            == Ok(Some(NodePrivateRemotePrincipal::Peer(leaf().credential_id())))
    );
    assert_eq!(
        resolver.judge_peer(peer(id(2), PeerCredentialDirection::ChildToMain)),
        Err(NodePrivateRemoteTlsError::PrincipalRejected)
    );
    assert_eq!(
        resolver.judge_peer(peer(id(1), PeerCredentialDirection::MainToChild)),
        Err(NodePrivateRemoteTlsError::PrincipalRejected)
    );
    assert_eq!(resolver.judge_peer(Err(PeerCredentialError::Unrecognized)), Ok(None));
    let controller = RegisteredController {
        controller_id: ControllerId::parse("0000000000000000000000000000000c").unwrap(),
        certificate_sha256: leaf(),
    };
    assert!(
        resolver.find_controller(&Some(vec![controller]), &leaf()) == Ok(controller.controller_id)
    );
    assert_eq!(
        resolver.find_controller(&Some(vec![controller, controller]), &leaf()),
        Err(NodePrivateRemoteTlsError::PrincipalRejected)
    );
    assert!(resolver.find_controller(&None, &leaf()).is_err());
    assert!(resolver.admit_controller(controller.controller_id, &leaf(), true).is_ok());
    assert!(resolver.admit_controller(controller.controller_id, &leaf(), false).is_err());
}

#[test]
fn principal_steps_ask_peers_before_controllers() {
    let resolver = CoreNodePrincipalResolver::new(id(1));
    let first = resolver.start();
    assert!(first == PrincipalStep::ResolvePeer);
    let peer = PeerPrincipal {
        credential_id: leaf().credential_id(),
        local_node_id: id(1),
        direction: PeerCredentialDirection::ChildToMain,
    };
    assert!(
        resolver.advance(&leaf(), first, PrincipalEvent::PeerResolved(Ok(peer)))
            == Ok(PrincipalStep::Accept(NodePrivateRemotePrincipal::Peer(peer.credential_id)))
    );
    let refused = PrincipalEvent::PeerResolved(Err(PeerCredentialError::Rejected));
    assert!(resolver.advance(&leaf(), first, refused).is_err());
    let unknown = PrincipalEvent::PeerResolved(Err(PeerCredentialError::Unrecognized));
    let second = resolver.advance(&leaf(), first, unknown).unwrap();
    assert!(second == PrincipalStep::ListControllers);
    let controller = RegisteredController {
        controller_id: ControllerId::parse("0000000000000000000000000000000c").unwrap(),
        certificate_sha256: leaf(),
    };
    let listed = PrincipalEvent::ControllersListed(Some(vec![controller]));
    let third = resolver.advance(&leaf(), second, listed).unwrap();
    assert!(
        third
            == PrincipalStep::AuthorizeController {
                controller_id: controller.controller_id,
                certificate_sha256: leaf(),
                role: ControllerRole::Viewer,
            }
    );
    assert!(
        resolver.advance(&leaf(), third, PrincipalEvent::ControllerAuthorized(true))
            == Ok(PrincipalStep::Accept(NodePrivateRemotePrincipal::Controller {
                controller_id: controller.controller_id,
                certificate_sha256: leaf(),
            }))
    );
    assert!(resolver.advance(&leaf(), third, PrincipalEvent::ControllerAuthorized(false)).is_err());
    assert!(resolver.advance(&leaf(), second, PrincipalEvent::ControllersListed(None)).is_err());
    assert!(resolver.advance(&leaf(), first, PrincipalEvent::ControllerAuthorized(true)).is_err());
}

#[test]
fn missing_authority_commits_are_corrupt_state() {
    assert!(matches!(
        paired_child_transaction_revision(&Vec::new(), &id(1), &id(2)),
        Err(NodeManagerError::CorruptState {
            reason: "paired child transaction omitted authority commits",
        })
    ));
    assert!(matches!(
        paired_main_restoration_revision(&Vec::new(), &id(1), &id(2)),
        Err(NodeManagerError::CorruptState {
            reason: "pairing rollback transaction omitted authority commits",
        })
    ));
}

fn package() -> NodePairingCredentials {
    NodePairingCredentials::new(
        vec![1],
        vec![2],
        vec![3],
        vec![4],
        sha256_digest(b"child"),
        time(1),
        time(100),
    )
    .unwrap()
}

fn activation() -> NodePairedChildActivationRequest {
    NodePairedChildActivationRequest::new(
        "key".to_string(),
        node(2, NodeRole::Main, NodeState::Active),
        leaf(),
        package(),
    )
    .unwrap()
}

fn restoration() -> NodePairedMainRestorationRequest {
    NodePairedMainRestorationRequest::new(
        "key".to_string(),
        node(2, NodeRole::Main, NodeState::Active),
        leaf(),
        package(),
    )
    .unwrap()
}

#[test]
fn authority_requests_are_bounded() {
    let build = |key: &str, main: Node| {
        NodePairedChildActivationRequest::new(key.to_string(), main, leaf(), package())
    };
    assert!(build(&"x".repeat(255), main_node()).is_ok());
    assert!(matches!(
        build(&"x".repeat(256), main_node()),
        Err(NodePairingActivationAuthorityError::InvalidRequest)
    ));
    assert!(build("", main_node()).is_err());
    assert!(build("key", node(2, NodeRole::Main, NodeState::Offline)).is_err());
    assert_eq!(
        NodePairingActivationAuthorityError::RecoveryRequired.message(),
        "pairing authority requires recovery"
    );
}

#[test]
fn activation_creates_the_credential_once() {
    let local = || Ok(Stored { value: main_node(), revision: 3 });
    let plan = plan_activation(&local(), &activation(), true, Ok(None)).unwrap();
    assert!(plan.credential == credential());
    assert!(matches!(plan.write, Some(PeerCredentialWrite::Save { .. })));
    let there = VersionedPeerCredential { credential: credential(), revision: 3 };
    let replayed = plan_activation(&local(), &activation(), true, Ok(Some(there))).unwrap();
    assert!(replayed.write.is_none());
    let foreign = VersionedPeerCredential {
        credential: PeerCredential { peer_node_id: id(9), ..credential() },
        revision: 3,
    };
    assert!(matches!(
        plan_activation(&local(), &activation(), true, Ok(Some(foreign))),
        Err(NodePairingActivationAuthorityError::AuthorityConflict)
    ));
    assert!(matches!(
        plan_activation(&local(), &activation(), false, Ok(None)),
        Err(NodePairingActivationAuthorityError::InvalidRequest)
    ));
    assert!(matches!(
        plan_activation(&Err(NodeManagerError::CorruptState { reason: "x" }), &activation(), true, Ok(None)),
        Err(NodePairingActivationAuthorityError::RecoveryRequired)
    ));
}

#[test]
fn activations_are_verified() {
    let main = node(2, NodeRole::Main, NodeState::Active);
    let there = VersionedPeerCredential { credential: credential(), revision: 3 };
    let child = || {
        Ok(NodeManagerChange::observed(node(1, NodeRole::Child, NodeState::Active), 4))
    };
    let receipt =
        conclude_activation(child(), &main, &credential(), Ok(Some(there)), &Ok(main.copy()))
            .unwrap();
    assert!(receipt.disposition() == NodePairingAuthorityDisposition::Replayed);
    let restored = NodePairingAuthorityReceipt::restore(
        node(1, NodeRole::Child, NodeState::Active),
        NodePairingAuthorityDisposition::Replayed,
    );
    assert!(receipt.same(&restored));
    assert!(matches!(
        conclude_activation(child(), &main, &credential(), Ok(None), &Ok(main.copy())),
        Err(NodePairingActivationAuthorityError::RecoveryRequired)
    ));
    let applied = Ok(NodeManagerChange::committed(
        node(1, NodeRole::Child, NodeState::Active),
        4,
        Some(NodeManagerEvent::NodeActivated { node_id: id(1) }),
    ));
    let receipt =
        conclude_activation(applied, &main, &credential(), Ok(Some(there)), &Ok(main.copy()))
            .unwrap();
    assert!(receipt.disposition() == NodePairingAuthorityDisposition::Applied);
}

#[test]
fn restoration_deletes_what_activation_created() {
    let child = || Ok(Stored { value: node(1, NodeRole::Child, NodeState::Active), revision: 4 });
    let there = VersionedPeerCredential { credential: credential(), revision: 7 };
    match plan_restoration(&child(), &restoration(), Ok(Some(there)), true) {
        Ok(RestorationPlan::Delete {
            write: PeerCredentialWrite::Delete { peer_leaf_sha256, expected },
        }) => {
            assert!(peer_leaf_sha256 == leaf());
            assert!(expected == DatabaseRevision::Exact(7));
        }
        _ => panic!("the credential was not deleted"),
    }
    assert!(matches!(
        plan_restoration(&child(), &restoration(), Ok(None), true),
        Err(NodePairingActivationAuthorityError::RecoveryRequired)
    ));
    let main = || Ok(Stored { value: main_node(), revision: 4 });
    assert!(matches!(
        plan_restoration(&main(), &restoration(), Ok(None), true),
        Ok(RestorationPlan::Verify)
    ));
    let absent = || Err(NodeManagerError::Database(not_found()));
    let receipt = conclude_restoration(main_node(), None, Ok(None), &absent()).unwrap();
    assert!(receipt.disposition() == NodePairingAuthorityDisposition::Replayed);
    assert!(matches!(
        conclude_restoration(main_node(), None, Ok(Some(there)), &absent()),
        Err(NodePairingActivationAuthorityError::RecoveryRequired)
    ));
    assert!(conclude_restoration(main_node(), None, Ok(None), &Ok(main_node())).is_err());
    let code = TechnicalName::parse("code").unwrap();
    assert_eq!(code.as_str(), "code");
}
