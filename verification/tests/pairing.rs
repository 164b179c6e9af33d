use li_node_manager::digest::sha256_digest;
use li_node_manager::entity::{Node, NodeIdentity, NodeRole, NodeState};
use li_node_manager::identity::{
    DisplayName, EntityTimestamps, HardwareObservationId, InstallationId, MachineId,
    NetworkInterfaceName, NodeAddress, NodeId, PairingInviteId, Sha256Digest, UnixMilliseconds,
};
use li_node_manager::node_pairing_api::{
    NodePairingApiError, NodePairingApproveRequest, NodePairingChallenge, NodePairingCredentials,
    NodePairingEnrollRequest, NodePairingEnrollment, NodePairingInvitation, NodePairingMode,
    NodePairingOpenRequest, NodePairingState, NodePairingStatus,
};
use li_node_manager::node_pairing_tls::{answer_document, NodePairingTlsError};
use li_node_manager::node_pairing_transport::{
    append_transcript_field, decode_base64, encode_base64, node_pairing_candidate_offer_identity,
    node_pairing_candidate_offer_transcript, request_to_document, require_document_size,
    response_to_document, NodePairingApiPort, NodePairingCandidateEnrollment,
    NodePairingCandidateOffer, NodePairingCandidateOfferPort, NodePairingDocumentEndpoint,
    NodePairingLocalNodePort, NodePairingPorts, NodePairingTransportError,
    NodePairingTransportRequest, NodePairingTransportResponse, NodePairingWorld, WireNode,
};
use li_node_manager::sequence::Valued;

fn digest(text: &str) -> Sha256Digest {
    sha256_digest(text.as_bytes())
}

fn time(value: u64) -> UnixMilliseconds {
    UnixMilliseconds::new(value)
}

fn invite() -> PairingInviteId {
    PairingInviteId::parse("11111111111111111111111111111111").unwrap()
}

fn named_node(id: &str, name: &str, address: &str, role: NodeRole, state: NodeState) -> Node {
    Node {
        identity: NodeIdentity::new(
            NodeId::parse(id).unwrap(),
            MachineId::parse("22222222222222222222222222222222").unwrap(),
            InstallationId::parse("33333333333333333333333333333333").unwrap(),
        ),
        display_name: DisplayName::parse(name).unwrap(),
        role,
        state,
        control_address: NodeAddress::parse(address).unwrap(),
        latest_hardware_observation_id: None,
        timestamps: EntityTimestamps::new(time(10), time(20)).unwrap(),
    }
}

fn main_node() -> Node {
    named_node(
        "0000000000000000000000000000000a",
        "main",
        "10.0.0.1",
        NodeRole::Main,
        NodeState::Active,
    )
}

fn offer() -> NodePairingCandidateOffer {
    NodePairingCandidateOffer::new(
        main_node(),
        vec![7; 128],
        digest("key"),
        digest("certificate"),
        digest("nonce"),
        time(5),
        time(6),
        vec![1, 2, 3],
    )
    .unwrap()
}

fn enrollment() -> NodePairingCandidateEnrollment {
    NodePairingCandidateEnrollment::new(
        "key-1".to_string(),
        invite(),
        main_node(),
        vec![9; 256],
        vec![4; 64],
        None,
    )
    .unwrap()
}

fn challenge() -> NodePairingChallenge {
    NodePairingChallenge::new(
        invite(),
        NodePairingMode::ConnectX {
            candidate_public_key_sha256: digest("key"),
            direct_interface: NetworkInterfaceName::parse("enp1s0").unwrap(),
        },
        digest("nonce"),
        time(1),
        time(2),
        NodeId::parse("0000000000000000000000000000000a").unwrap(),
        NodeAddress::parse("10.0.0.1").unwrap(),
        7443,
        digest("main-key"),
        digest("main-certificate"),
    )
    .unwrap()
}

fn status() -> NodePairingStatus {
    NodePairingStatus::new(
        invite(),
        NodePairingMode::Lan,
        NodePairingState::Active,
        time(9),
        1,
        Some(NodeId::parse("0000000000000000000000000000000b").unwrap()),
        None,
    )
    .unwrap()
}

fn credentials(signature: usize) -> NodePairingCredentials {
    NodePairingCredentials::new(
        vec![1; 300],
        vec![2; 400],
        vec![3; 500],
        vec![4; signature],
        digest("leaf"),
        time(1),
        time(100),
    )
    .unwrap()
}

fn reason(error: NodePairingTransportError) -> &'static str {
    match error {
        NodePairingTransportError::InvalidDocument { reason } => reason,
        _ => "",
    }
}

#[test]
fn base64_spells_bytes_exactly() {
    assert_eq!(encode_base64(&b"f".to_vec()), "Zg==");
    assert_eq!(encode_base64(&b"foobar".to_vec()), "Zm9vYmFy");
    assert_eq!(decode_base64("Zm9vYg==", 16).unwrap(), b"foob".to_vec());
}

#[test]
fn base64_refuses_what_it_never_spells() {
    assert_eq!(reason(decode_base64("Zg=", 16).unwrap_err()), "binary payload is invalid");
    assert_eq!(reason(decode_base64("Zh==", 16).unwrap_err()), "binary payload is invalid");
    assert_eq!(reason(decode_base64("", 16).unwrap_err()), "binary payload size is invalid");
    assert_eq!(reason(decode_base64("Zm9vYg==", 3).unwrap_err()), "binary payload size is invalid");
}

#[test]
fn transcript_fields_are_length_delimited() {
    let mut transcript = vec![1];
    append_transcript_field(&mut transcript, b"ab");
    assert_eq!(transcript, vec![1, 0, 0, 0, 0, 0, 0, 0, 2, b'a', b'b']);
}

#[test]
fn different_offers_have_different_transcripts() {
    let transcript = |key: &str, nonce: &str, issued_at: u64| {
        node_pairing_candidate_offer_transcript(
            &main_node(),
            &digest(key),
            &digest("certificate"),
            &digest(nonce),
            time(issued_at),
            time(6),
        )
    };
    let one = transcript("key", "nonce", 5);
    assert_eq!(one, transcript("key", "nonce", 5));
    assert_ne!(one, transcript("other", "nonce", 5));
    assert_ne!(one, transcript("key", "other", 5));
    assert_ne!(one, transcript("key", "nonce", 4));
}

#[test]
fn offer_transcript_starts_with_its_domain() {
    let transcript = node_pairing_candidate_offer_transcript(
        &main_node(),
        &digest("key"),
        &digest("certificate"),
        &digest("nonce"),
        time(5),
        time(6),
    );
    let mut start = vec![0, 0, 0, 0, 0, 0, 0, 29];
    start.extend_from_slice(b"letsinfer-candidate-offer-v1\0");
    assert_eq!(&transcript[..37], &start[..]);
    assert_eq!(&transcript[transcript.len() - 16..], &[0, 0, 0, 0, 0, 0, 0, 8, 0, 0, 0, 0, 0, 0, 0, 6]);
    assert_eq!(transcript.len(), 37 + 3 * 40 + 12 + 16 + 3 * 72 + 32);
    assert!(node_pairing_candidate_offer_identity(&offer()).unwrap() == sha256_digest(&transcript));
}

#[test]
fn offers_are_bounded() {
    let build = |node: Node, key: usize, signature: usize, issued: u64, expires: u64| {
        NodePairingCandidateOffer::new(
            node,
            vec![0; key],
            digest("k"),
            digest("c"),
            digest("n"),
            time(issued),
            time(expires),
            vec![0; signature],
        )
    };
    assert!(build(main_node(), 128, 1, 1, 2).is_ok());
    assert!(build(main_node(), 8192, 2048, 1, 2).is_ok());
    let child = named_node(
        "0000000000000000000000000000000a",
        "c",
        "a",
        NodeRole::Child,
        NodeState::Active,
    );
    for broken in [
        build(child, 128, 1, 1, 2),
        build(main_node(), 127, 1, 1, 2),
        build(main_node(), 8193, 1, 1, 2),
        build(main_node(), 128, 0, 1, 2),
        build(main_node(), 128, 2049, 1, 2),
        build(main_node(), 128, 1, 0, 2),
        build(main_node(), 128, 1, 2, 2),
    ] {
        match broken {
            Ok(_) => panic!("a broken offer was accepted"),
            Err(error) => assert_eq!(reason(error), "candidate offer is invalid"),
        }
    }
}

#[test]
fn enrollment_needs_valid_request_and_active_main() {
    let build = |key: &str, node: Node| {
        NodePairingCandidateEnrollment::new(
            key.to_string(),
            invite(),
            node,
            vec![9; 256],
            vec![4; 64],
            None,
        )
    };
    assert!(build("k", main_node()).is_ok());
    assert!(matches!(build("", main_node()), Err(NodePairingTransportError::RequestRejected)));
    let child = named_node(
        "0000000000000000000000000000000a",
        "c",
        "a",
        NodeRole::Child,
        NodeState::Active,
    );
    match build("k", child) {
        Ok(_) => panic!("a child was accepted"),
        Err(error) => assert_eq!(reason(error), "candidate enrollment is invalid"),
    }
}

#[test]
fn enrollment_takes_only_the_observed_peer() {
    let request = enrollment().into_request(NodeAddress::parse("192.0.2.7").unwrap()).unwrap();
    assert_eq!(request.observed_peer_address().as_str(), "192.0.2.7");
    assert_eq!(request.candidate_address().as_str(), "10.0.0.1");
}

#[test]
fn wire_node_round_trip() {
    let wire = WireNode::from_node(&main_node());
    assert_eq!(wire.role, "main");
    assert_eq!(wire.state, "active");
    assert!(wire.into_node().unwrap().same(&main_node()));
}

#[test]
fn wire_node_omits_the_hardware_pointer() {
    let mut node = main_node();
    node.latest_hardware_observation_id =
        Some(HardwareObservationId::parse("44444444444444444444444444444444").unwrap());
    let read = WireNode::from_node(&node).into_node().unwrap();
    assert!(read.latest_hardware_observation_id.is_none());
}

#[test]
fn wire_node_failures_come_in_order() {
    let mut wire = WireNode::from_node(&main_node());
    wire.role = "other".to_string();
    wire.state = "other".to_string();
    wire.node_id = "x".to_string();
    assert_eq!(reason(wire.copy().into_node().unwrap_err()), "node role is invalid");
    wire.role = "child".to_string();
    assert_eq!(reason(wire.copy().into_node().unwrap_err()), "node state is invalid");
    wire.state = "draining".to_string();
    assert_eq!(reason(wire.into_node().unwrap_err()), "typed value is invalid");
}

#[test]
fn request_documents_round_trip() {
    let requests = vec![
        NodePairingTransportRequest::CandidateOffer { request_nonce: digest("nonce") },
        NodePairingTransportRequest::Challenge { invite_id: invite() },
        NodePairingTransportRequest::Enroll(enrollment()),
        NodePairingTransportRequest::Status { invite_id: invite() },
    ];
    for request in requests {
        let read = request_to_document(&request).unwrap().into_request().unwrap();
        match (&request, &read) {
            (
                NodePairingTransportRequest::CandidateOffer { request_nonce: left },
                NodePairingTransportRequest::CandidateOffer { request_nonce: right },
            ) => assert!(left == right),
            (
                NodePairingTransportRequest::Challenge { invite_id: left },
                NodePairingTransportRequest::Challenge { invite_id: right },
            ) => assert!(left == right),
            (
                NodePairingTransportRequest::Enroll(left),
                NodePairingTransportRequest::Enroll(right),
            ) => assert!(left.same(right)),
            (
                NodePairingTransportRequest::Status { invite_id: left },
                NodePairingTransportRequest::Status { invite_id: right },
            ) => assert!(left == right),
            _ => panic!("another request was read"),
        }
    }
}

#[test]
fn response_documents_round_trip() {
    let read = response_to_document(&NodePairingTransportResponse::CandidateOffer(offer()))
        .unwrap()
        .into_response()
        .unwrap();
    match read {
        NodePairingTransportResponse::CandidateOffer(read) => assert!(read.same(&offer())),
        _ => panic!("another response was read"),
    }
    let response = NodePairingTransportResponse::Challenge { challenge: challenge(), main: main_node() };
    match response_to_document(&response).unwrap().into_response().unwrap() {
        NodePairingTransportResponse::Challenge { challenge: read, main } => {
            assert!(read.same(&challenge()));
            assert!(main.same(&main_node()));
        }
        _ => panic!("another response was read"),
    }
    let enrolled = NodePairingEnrollment::new(status(), credentials(64)).unwrap();
    let response = NodePairingTransportResponse::Enrollment(enrolled);
    match response_to_document(&response).unwrap().into_response().unwrap() {
        NodePairingTransportResponse::Enrollment(read) => {
            assert!(read.status().same(&status()));
            assert!(read.credentials().same(&credentials(64)));
        }
        _ => panic!("another response was read"),
    }
    match response_to_document(&NodePairingTransportResponse::Status(status()))
        .unwrap()
        .into_response()
        .unwrap()
    {
        NodePairingTransportResponse::Status(read) => assert!(read.same(&status())),
        _ => panic!("another response was read"),
    }
}

#[test]
fn oversized_membership_signature_is_not_read_back() {
    let enrolled = NodePairingEnrollment::new(status(), credentials(2049)).unwrap();
    let document = response_to_document(&NodePairingTransportResponse::Enrollment(enrolled)).unwrap();
    match document.into_response() {
        Ok(_) => panic!("an oversized signature was read"),
        Err(error) => assert_eq!(reason(error), "binary payload size is invalid"),
    }
}

#[test]
fn divergent_installation_time_is_refused() {
    let request = NodePairingTransportRequest::Enroll(enrollment());
    let mut document = request_to_document(&request).unwrap();
    match document.request.take() {
        Some(li_node_manager::node_pairing_transport::WireRequest::Enroll { mut enrollment }) => {
            enrollment.installation_created_at_unix_milliseconds += 1;
            match enrollment.into_request() {
                Ok(_) => panic!("a divergent time was accepted"),
                Err(error) => {
                    assert_eq!(reason(error), "candidate installation timestamp is divergent")
                }
            }
        }
        _ => panic!("another request was written"),
    }
}

#[test]
fn documents_are_closed() {
    let request = NodePairingTransportRequest::Status { invite_id: invite() };
    let document = request_to_document(&request).unwrap();
    match document.into_response() {
        Ok(_) => panic!("a request was read as a response"),
        Err(error) => assert_eq!(reason(error), "response is missing"),
    }
    let document = response_to_document(&NodePairingTransportResponse::Status(status())).unwrap();
    match document.into_request() {
        Ok(_) => panic!("a response was read as a request"),
        Err(error) => assert_eq!(reason(error), "request is missing"),
    }
    let mut document = request_to_document(&request).unwrap();
    assert_eq!(document.schema.version, 1);
    document.schema.version = 2;
    assert_eq!(reason(document.validate().unwrap_err()), "document envelope is invalid");
    let mut document = request_to_document(&request).unwrap();
    document.request = None;
    assert_eq!(reason(document.validate().unwrap_err()), "document envelope is invalid");
    assert!(require_document_size(262144).is_ok());
    assert_eq!(reason(require_document_size(0).unwrap_err()), "document size is invalid");
    assert_eq!(reason(require_document_size(262145).unwrap_err()), "document size is invalid");
}

#[test]
fn oversized_payloads_never_become_documents() {
    assert!(matches!(
        NodePairingCandidateEnrollment::new(
            "key-1".to_string(),
            invite(),
            main_node(),
            vec![0; 262145],
            vec![4; 64],
            None,
        ),
        Err(NodePairingTransportError::RequestRejected)
    ));
}

#[test]
fn transport_errors_have_fixed_texts() {
    let texts = [
        (NodePairingTransportError::RequestRejected, "pairing request was rejected"),
        (NodePairingTransportError::Unavailable, "pairing transport is unavailable"),
        (NodePairingTransportError::TimedOut, "pairing transport timed out"),
        (NodePairingTransportError::Cancelled, "pairing operation was cancelled"),
        (NodePairingTransportError::UntrustedPeer, "pairing peer identity is untrusted"),
    ];
    for (error, text) in texts {
        assert_eq!(error.message(), text);
    }
    assert_eq!(
        NodePairingTransportError::InvalidDocument { reason: "x" }.message(),
        "pairing document is invalid: x"
    );
}

#[test]
fn pairing_values_are_bounded() {
    assert!(NodePairingOpenRequest::new("k".to_string(), NodePairingMode::Lan, 60).is_ok());
    assert!(matches!(
        NodePairingOpenRequest::new(String::new(), NodePairingMode::Lan, 60),
        Err(NodePairingApiError::InvalidRequest)
    ));
    assert!(matches!(
        NodePairingOpenRequest::new("a\nb".to_string(), NodePairingMode::Lan, 60),
        Err(NodePairingApiError::InvalidRequest)
    ));
    assert!(NodePairingApproveRequest::new("x".repeat(255), invite()).is_ok());
    assert!(NodePairingApproveRequest::new("x".repeat(256), invite()).is_err());
    assert!(matches!(
        NodePairingCredentials::new(
            vec![1],
            vec![1],
            vec![1],
            vec![1],
            digest("leaf"),
            time(2),
            time(2)
        ),
        Err(NodePairingApiError::InvalidResponse)
    ));
}

struct Ports {
    calls: Vec<String>,
    main: Node,
    rejects: bool,
}

impl NodePairingPorts for Ports {
    fn world(&self) -> NodePairingWorld {
        unreachable!()
    }
}

impl NodePairingCandidateOfferPort for Ports {
    fn candidate_offer(
        &mut self,
        request_nonce: &Sha256Digest,
    ) -> Result<NodePairingCandidateOffer, NodePairingTransportError> {
        self.calls.push(format!("offer {}", request_nonce.to_text()));
        Ok(offer())
    }
}

impl NodePairingLocalNodePort for Ports {
    fn local_node(&mut self) -> Result<Node, NodePairingTransportError> {
        self.calls.push("local".to_string());
        Ok(self.main.copy())
    }
}

impl NodePairingApiPort for Ports {
    fn open(
        &mut self,
        _request: &NodePairingOpenRequest,
    ) -> Result<NodePairingInvitation, NodePairingApiError> {
        Err(NodePairingApiError::Unavailable)
    }

    fn challenge(
        &mut self,
        _invite_id: &PairingInviteId,
        observed_peer_address: &NodeAddress,
    ) -> Result<NodePairingChallenge, NodePairingApiError> {
        self.calls.push(format!("challenge {}", observed_peer_address.as_str()));
        if self.rejects {
            return Err(NodePairingApiError::Unavailable);
        }
        Ok(challenge())
    }

    fn enroll(
        &mut self,
        request: &NodePairingEnrollRequest,
    ) -> Result<NodePairingEnrollment, NodePairingApiError> {
        self.calls.push(format!("enroll {}", request.observed_peer_address().as_str()));
        NodePairingEnrollment::new(status(), credentials(64))
    }

    fn approve(
        &mut self,
        _request: &NodePairingApproveRequest,
    ) -> Result<NodePairingStatus, NodePairingApiError> {
        Ok(status())
    }

    fn status(
        &mut self,
        _invite_id: &PairingInviteId,
    ) -> Result<NodePairingStatus, NodePairingApiError> {
        self.calls.push("status".to_string());
        Ok(status())
    }
}

fn endpoint(main: Node, rejects: bool) -> NodePairingDocumentEndpoint<Ports> {
    NodePairingDocumentEndpoint::new(Ports { calls: Vec::new(), main, rejects })
}

#[test]
fn endpoint_answers_a_matching_challenge() {
    let mut endpoint = endpoint(main_node(), false);
    let peer = NodeAddress::parse("192.0.2.7").unwrap();
    let request = NodePairingTransportRequest::Challenge { invite_id: invite() };
    let response = endpoint.handle(request, &peer).unwrap();
    assert!(matches!(response, NodePairingTransportResponse::Challenge { .. }));
    assert_eq!(endpoint.ports.calls, vec!["challenge 192.0.2.7", "local"]);
}

#[test]
fn endpoint_refuses_a_challenge_of_another_main() {
    let other = named_node(
        "0000000000000000000000000000000c",
        "main",
        "10.0.0.1",
        NodeRole::Main,
        NodeState::Active,
    );
    let mut endpoint = endpoint(other, false);
    let peer = NodeAddress::parse("192.0.2.7").unwrap();
    let request = NodePairingTransportRequest::Challenge { invite_id: invite() };
    assert!(matches!(
        endpoint.handle(request, &peer),
        Err(NodePairingTransportError::RequestRejected)
    ));
}

#[test]
fn endpoint_stops_at_a_refused_challenge() {
    let mut endpoint = endpoint(main_node(), true);
    let peer = NodeAddress::parse("192.0.2.7").unwrap();
    let request = NodePairingTransportRequest::Challenge { invite_id: invite() };
    assert!(matches!(
        endpoint.handle(request, &peer),
        Err(NodePairingTransportError::RequestRejected)
    ));
    assert_eq!(endpoint.ports.calls, vec!["challenge 192.0.2.7"]);
}

#[test]
fn endpoint_hands_over_the_observed_peer() {
    let mut endpoint = endpoint(main_node(), false);
    let peer = NodeAddress::parse("192.0.2.7").unwrap();
    endpoint.handle(NodePairingTransportRequest::Enroll(enrollment()), &peer).unwrap();
    assert_eq!(endpoint.ports.calls, vec!["enroll 192.0.2.7"]);
}

#[test]
fn malformed_documents_are_answered_without_a_call() {
    let mut endpoint = endpoint(main_node(), false);
    let peer = NodeAddress::parse("192.0.2.7").unwrap();
    let document = response_to_document(&NodePairingTransportResponse::Status(status())).unwrap();
    match answer_document(&mut endpoint, document, &peer) {
        Ok(_) => panic!("a response was answered"),
        Err(error) => assert_eq!(error, NodePairingTlsError::RequestRejected),
    }
    assert!(endpoint.ports.calls.is_empty());
    let document =
        request_to_document(&NodePairingTransportRequest::Status { invite_id: invite() }).unwrap();
    let answer = answer_document(&mut endpoint, document, &peer).unwrap();
    assert!(matches!(
        answer.into_response(),
        Ok(NodePairingTransportResponse::Status(_))
    ));
    assert_eq!(endpoint.ports.calls, vec!["status"]);
}
