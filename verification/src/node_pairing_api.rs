//! The bounded requests, responses and states of node pairing.

use vstd::prelude::*;

use crate::entity::NodeIdentity;
use crate::identity::{
    DisplayName, NetworkInterfaceName, NodeAddress, NodeId, PairingInviteId, Sha256Digest,
    UnixMilliseconds,
};
use crate::sequence::{
    copy_bytes, copy_optional, outcome, same_bytes, same_optional, viewed, Valued,
};
use crate::text::{byte_length, digit_code, has_control, is_control_char, is_digit_code, text_bytes};

verus! {

/// The largest replay identity in bytes.
pub const MAX_IDEMPOTENCY_KEY_BYTES: usize = 255;

/// The largest candidate public key in bytes.
pub const MAX_PUBLIC_KEY_BYTES: usize = 8192;

/// The smallest candidate public key in bytes.
pub const MIN_PUBLIC_KEY_BYTES: usize = 128;

/// The largest candidate proof in bytes.
pub const MAX_PROOF_BYTES: usize = 1024;

/// The largest part of a credential package in bytes.
pub const MAX_CREDENTIAL_BYTES: usize = 65536;

/// Names stable pairing-port failures without importing manager or persistence errors.
#[derive(Clone, Copy, Debug, PartialEq, Eq, Structural)]
pub enum NodePairingApiError {
    MainOnly,
    InvalidRequest,
    NotFound,
    Expired,
    Conflict,
    Unavailable,
    InvalidResponse,
}

impl NodePairingApiError {
    /// The fixed text of the failure.
    pub open spec fn text(self) -> Seq<char> {
        match self {
            NodePairingApiError::MainOnly => "pairing action requires an active main node"@,
            NodePairingApiError::InvalidRequest => "pairing request is invalid"@,
            NodePairingApiError::NotFound => "pairing invitation is unavailable"@,
            NodePairingApiError::Expired => "pairing invitation has expired"@,
            NodePairingApiError::Conflict => "pairing state changed concurrently"@,
            NodePairingApiError::Unavailable => "pairing service is unavailable"@,
            NodePairingApiError::InvalidResponse => "pairing service returned invalid state"@,
        }
    }

    /// Presents fixed pairing boundary language without candidate or credential values.
    pub fn message(&self) -> (text: &'static str)
        ensures
            text@ == self.text(),
    {
        match self {
            NodePairingApiError::MainOnly => "pairing action requires an active main node",
            NodePairingApiError::InvalidRequest => "pairing request is invalid",
            NodePairingApiError::NotFound => "pairing invitation is unavailable",
            NodePairingApiError::Expired => "pairing invitation has expired",
            NodePairingApiError::Conflict => "pairing state changed concurrently",
            NodePairingApiError::Unavailable => "pairing service is unavailable",
            NodePairingApiError::InvalidResponse => "pairing service returned invalid state",
        }
    }
}

/// Selects one exact authorization mode without importing pairing implementation types.
#[derive(Debug)]
pub enum NodePairingMode {
    Lan,
    Remote,
    ConnectX { candidate_public_key_sha256: Sha256Digest, direct_interface: NetworkInterfaceName },
}

/// What one [`NodePairingMode`] holds.
pub enum NodePairingModeView {
    Lan,
    Remote,
    ConnectX { candidate_public_key_sha256: Sha256Digest, direct_interface: Seq<char> },
}

impl View for NodePairingMode {
    type V = NodePairingModeView;

    open spec fn view(&self) -> NodePairingModeView {
        match self {
            NodePairingMode::Lan => NodePairingModeView::Lan,
            NodePairingMode::Remote => NodePairingModeView::Remote,
            NodePairingMode::ConnectX { candidate_public_key_sha256, direct_interface } => {
                NodePairingModeView::ConnectX {
                    candidate_public_key_sha256: *candidate_public_key_sha256,
                    direct_interface: direct_interface@,
                }
            },
        }
    }
}

impl Valued for NodePairingMode {
    fn copy(&self) -> (copy: Self) {
        match self {
            NodePairingMode::Lan => NodePairingMode::Lan,
            NodePairingMode::Remote => NodePairingMode::Remote,
            NodePairingMode::ConnectX { candidate_public_key_sha256, direct_interface } => {
                NodePairingMode::ConnectX {
                    candidate_public_key_sha256: *candidate_public_key_sha256,
                    direct_interface: direct_interface.copy(),
                }
            },
        }
    }

    fn same(&self, other: &Self) -> (same: bool) {
        match (self, other) {
            (NodePairingMode::Lan, NodePairingMode::Lan) => true,
            (NodePairingMode::Remote, NodePairingMode::Remote) => true,
            (
                NodePairingMode::ConnectX {
                    candidate_public_key_sha256: left_key,
                    direct_interface: left_interface,
                },
                NodePairingMode::ConnectX {
                    candidate_public_key_sha256: right_key,
                    direct_interface: right_interface,
                },
            ) => *left_key == *right_key && left_interface.same(right_interface),
            _ => false,
        }
    }
}

/// Names the durable pairing state projected through the Node private API.
#[derive(Clone, Copy, Debug, PartialEq, Eq, Structural)]
pub enum NodePairingState {
    Open,
    PendingApproval,
    Active,
}

/// A replay identity that is not empty, bounded, and free of terminal controls.
pub open spec fn replay_key_valid(value: Seq<char>) -> bool {
    &&& value.len() > 0
    &&& byte_length(value) <= MAX_IDEMPOTENCY_KEY_BYTES
    &&& forall|i: int| 0 <= i < value.len() ==> !is_control_char(#[trigger] value[i])
}

/// Requires one replay identity to be nonempty, bounded, and free of terminal controls.
pub fn require_idempotency_key(value: &str) -> (result: Result<(), NodePairingApiError>)
    ensures
        result == (if replay_key_valid(value@) {
            Ok::<(), NodePairingApiError>(())
        } else {
            Err(NodePairingApiError::InvalidRequest)
        }),
{
    if value.is_empty() || text_bytes(value) > MAX_IDEMPOTENCY_KEY_BYTES || has_control(value) {
        return Err(NodePairingApiError::InvalidRequest);
    }
    Ok(())
}

/// An optional code that has the given number of digits when it is there.
pub open spec fn optional_code(code: Option<Seq<char>>, digits: nat) -> bool {
    code matches Some(code) ==> digit_code(code, digits)
}

fn optional_code_is_valid(code: &Option<String>, digits: usize) -> (valid: bool)
    ensures
        valid == optional_code(viewed(*code), digits as nat),
{
    match code {
        Some(code) => is_digit_code(code.as_str(), digits),
        None => true,
    }
}

/// Carries one bounded main-owned request to open a pairing invitation.
#[derive(Debug)]
pub struct NodePairingOpenRequest {
    pub(crate) idempotency_key: String,
    pub(crate) mode: NodePairingMode,
    pub(crate) lifetime_seconds: u16,
}

/// What one [`NodePairingOpenRequest`] holds.
pub struct NodePairingOpenRequestView {
    pub idempotency_key: Seq<char>,
    pub mode: NodePairingModeView,
    pub lifetime_seconds: u16,
}

impl View for NodePairingOpenRequest {
    type V = NodePairingOpenRequestView;

    open(crate) spec fn view(&self) -> NodePairingOpenRequestView {
        NodePairingOpenRequestView {
            idempotency_key: self.idempotency_key@,
            mode: self.mode@,
            lifetime_seconds: self.lifetime_seconds,
        }
    }
}

impl Valued for NodePairingOpenRequest {
    fn copy(&self) -> (copy: Self) {
        proof {
            use_type_invariant(self);
        }
        NodePairingOpenRequest {
            idempotency_key: self.idempotency_key.copy(),
            mode: self.mode.copy(),
            lifetime_seconds: self.lifetime_seconds,
        }
    }

    fn same(&self, other: &Self) -> (same: bool) {
        self.idempotency_key.same(&other.idempotency_key)
            && self.mode.same(&other.mode)
            && self.lifetime_seconds == other.lifetime_seconds
    }
}

impl NodePairingOpenRequest {
    #[verifier::type_invariant]
    pub(crate) open(crate) spec fn is_valid(self) -> bool {
        open_request_valid(self@)
    }

    /// Returns the exact replay identity supplied by the caller.
    pub fn idempotency_key(&self) -> (value: &str)
        ensures
            value@ == self@.idempotency_key,
    {
        self.idempotency_key.as_str()
    }

    /// Returns the requested pairing authorization mode.
    pub fn mode(&self) -> (value: &NodePairingMode)
        ensures
            value@ == self@.mode,
    {
        &self.mode
    }

    /// Returns the bounded invitation lifetime in seconds.
    pub fn lifetime_seconds(&self) -> (value: u16)
        ensures
            value == self@.lifetime_seconds,
    {
        self.lifetime_seconds
    }
}

/// A replay identity and a lifetime between thirty seconds and ten minutes.
pub open spec fn open_request_valid(request: NodePairingOpenRequestView) -> bool {
    replay_key_valid(request.idempotency_key) && 30 <= request.lifetime_seconds <= 600
}

impl NodePairingOpenRequest {
    /// Creates one open request only from a bounded replay identity and invitation lifetime.
    pub fn new(
        idempotency_key: String,
        mode: NodePairingMode,
        lifetime_seconds: u16,
    ) -> (result: Result<Self, NodePairingApiError>)
        ensures
            ({
                let value = NodePairingOpenRequestView {
                    idempotency_key: idempotency_key@,
                    mode: mode@,
                    lifetime_seconds: lifetime_seconds,
                };
                outcome(result) == if open_request_valid(value) {
                    Ok(value)
                } else {
                    Err(NodePairingApiError::InvalidRequest)
                }
            }),
    {
        require_idempotency_key(idempotency_key.as_str())?;
        if lifetime_seconds < 30 || lifetime_seconds > 600 {
            return Err(NodePairingApiError::InvalidRequest);
        }
        Ok(
            NodePairingOpenRequest {
                idempotency_key,
                mode,
                lifetime_seconds,
            },
        )
    }
}

/// Returns one opened invitation while keeping its one-time setup code out of diagnostics.
pub struct NodePairingInvitation {
    pub(crate) invite_id: PairingInviteId,
    pub(crate) mode: NodePairingMode,
    pub(crate) nonce: Sha256Digest,
    pub(crate) expires_at: UnixMilliseconds,
    pub(crate) setup_code: Option<String>,
}

/// What one [`NodePairingInvitation`] holds.
pub struct NodePairingInvitationView {
    pub invite_id: PairingInviteId,
    pub mode: NodePairingModeView,
    pub nonce: Sha256Digest,
    pub expires_at: UnixMilliseconds,
    pub setup_code: Option<Seq<char>>,
}

impl View for NodePairingInvitation {
    type V = NodePairingInvitationView;

    open(crate) spec fn view(&self) -> NodePairingInvitationView {
        NodePairingInvitationView {
            invite_id: self.invite_id,
            mode: self.mode@,
            nonce: self.nonce,
            expires_at: self.expires_at,
            setup_code: viewed(self.setup_code),
        }
    }
}

impl Valued for NodePairingInvitation {
    fn copy(&self) -> (copy: Self) {
        proof {
            use_type_invariant(self);
        }
        NodePairingInvitation {
            invite_id: self.invite_id,
            mode: self.mode.copy(),
            nonce: self.nonce,
            expires_at: self.expires_at,
            setup_code: copy_optional(&self.setup_code),
        }
    }

    fn same(&self, other: &Self) -> (same: bool) {
        self.invite_id == other.invite_id
            && self.mode.same(&other.mode)
            && self.nonce == other.nonce
            && self.expires_at == other.expires_at
            && same_optional(&self.setup_code, &other.setup_code)
    }
}

impl NodePairingInvitation {
    #[verifier::type_invariant]
    pub(crate) open(crate) spec fn is_valid(self) -> bool {
        invitation_valid(self@)
    }

    /// Returns the durable invitation identity.
    pub fn invite_id(&self) -> (value: PairingInviteId)
        ensures
            value == self@.invite_id,
    {
        self.invite_id
    }

    /// Returns the exact pairing mode recorded for this invitation.
    pub fn mode(&self) -> (value: &NodePairingMode)
        ensures
            value@ == self@.mode,
    {
        &self.mode
    }

    /// Returns the challenge nonce bound to candidate proof.
    pub fn nonce(&self) -> (value: Sha256Digest)
        ensures
            value == self@.nonce,
    {
        self.nonce
    }

    /// Returns the exclusive invitation expiration boundary.
    pub fn expires_at(&self) -> (value: UnixMilliseconds)
        ensures
            value == self@.expires_at,
    {
        self.expires_at
    }

    /// Returns the one-time setup code only to the authenticated caller.
    pub fn setup_code(&self) -> (value: &Option<String>)
        ensures
            viewed(*value) == self@.setup_code,
    {
        &self.setup_code
    }
}

/// An invitation that expires and carries a code of eight digits exactly when its mode needs one.
pub open spec fn invitation_valid(invitation: NodePairingInvitationView) -> bool {
    &&& invitation.expires_at.value > 0
    &&& (invitation.setup_code is Some) == !(invitation.mode is ConnectX)
    &&& optional_code(invitation.setup_code, 8)
}

impl NodePairingInvitation {
    /// Creates one coherent invitation response with the exact code requirement for its mode.
    pub fn new(
        invite_id: PairingInviteId,
        mode: NodePairingMode,
        nonce: Sha256Digest,
        expires_at: UnixMilliseconds,
        setup_code: Option<String>,
    ) -> (result: Result<Self, NodePairingApiError>)
        ensures
            ({
                let value = NodePairingInvitationView {
                    invite_id: invite_id,
                    mode: mode@,
                    nonce: nonce,
                    expires_at: expires_at,
                    setup_code: viewed(setup_code),
                };
                outcome(result) == if invitation_valid(value) {
                    Ok(value)
                } else {
                    Err(NodePairingApiError::InvalidResponse)
                }
            }),
    {
        let requires_code = match &mode {
            NodePairingMode::ConnectX { .. } => false,
            _ => true,
        };
        if expires_at.value == 0 || requires_code != setup_code.is_some() || !optional_code_is_valid(
            &setup_code,
            8,
        ) {
            return Err(NodePairingApiError::InvalidResponse);
        }
        Ok(
            NodePairingInvitation {
                invite_id,
                mode,
                nonce,
                expires_at,
                setup_code,
            },
        )
    }
}

/// Returns one public invitation challenge used to derive candidate possession proof.
#[derive(Debug)]
pub struct NodePairingChallenge {
    pub(crate) invite_id: PairingInviteId,
    pub(crate) mode: NodePairingMode,
    pub(crate) nonce: Sha256Digest,
    pub(crate) created_at: UnixMilliseconds,
    pub(crate) expires_at: UnixMilliseconds,
    pub(crate) main_node_id: NodeId,
    pub(crate) main_address: NodeAddress,
    pub(crate) main_private_port: u16,
    pub(crate) main_public_key_sha256: Sha256Digest,
    pub(crate) main_certificate_sha256: Sha256Digest,
}

/// What one [`NodePairingChallenge`] holds.
pub struct NodePairingChallengeView {
    pub invite_id: PairingInviteId,
    pub mode: NodePairingModeView,
    pub nonce: Sha256Digest,
    pub created_at: UnixMilliseconds,
    pub expires_at: UnixMilliseconds,
    pub main_node_id: NodeId,
    pub main_address: Seq<char>,
    pub main_private_port: u16,
    pub main_public_key_sha256: Sha256Digest,
    pub main_certificate_sha256: Sha256Digest,
}

impl View for NodePairingChallenge {
    type V = NodePairingChallengeView;

    open(crate) spec fn view(&self) -> NodePairingChallengeView {
        NodePairingChallengeView {
            invite_id: self.invite_id,
            mode: self.mode@,
            nonce: self.nonce,
            created_at: self.created_at,
            expires_at: self.expires_at,
            main_node_id: self.main_node_id,
            main_address: self.main_address@,
            main_private_port: self.main_private_port,
            main_public_key_sha256: self.main_public_key_sha256,
            main_certificate_sha256: self.main_certificate_sha256,
        }
    }
}

impl Valued for NodePairingChallenge {
    fn copy(&self) -> (copy: Self) {
        proof {
            use_type_invariant(self);
        }
        NodePairingChallenge {
            invite_id: self.invite_id,
            mode: self.mode.copy(),
            nonce: self.nonce,
            created_at: self.created_at,
            expires_at: self.expires_at,
            main_node_id: self.main_node_id,
            main_address: self.main_address.copy(),
            main_private_port: self.main_private_port,
            main_public_key_sha256: self.main_public_key_sha256,
            main_certificate_sha256: self.main_certificate_sha256,
        }
    }

    fn same(&self, other: &Self) -> (same: bool) {
        self.invite_id == other.invite_id
            && self.mode.same(&other.mode)
            && self.nonce == other.nonce
            && self.created_at == other.created_at
            && self.expires_at == other.expires_at
            && self.main_node_id == other.main_node_id
            && self.main_address.same(&other.main_address)
            && self.main_private_port == other.main_private_port
            && self.main_public_key_sha256 == other.main_public_key_sha256
            && self.main_certificate_sha256 == other.main_certificate_sha256
    }
}

impl NodePairingChallenge {
    #[verifier::type_invariant]
    pub(crate) open(crate) spec fn is_valid(self) -> bool {
        challenge_valid(self@)
    }

    /// Returns the exact invitation identity.
    pub fn invite_id(&self) -> (value: PairingInviteId)
        ensures
            value == self@.invite_id,
    {
        self.invite_id
    }

    /// Returns the exact invitation authorization mode.
    pub fn mode(&self) -> (value: &NodePairingMode)
        ensures
            value@ == self@.mode,
    {
        &self.mode
    }

    /// Returns the challenge nonce bound into candidate proof.
    pub fn nonce(&self) -> (value: Sha256Digest)
        ensures
            value == self@.nonce,
    {
        self.nonce
    }

    /// Returns the exact invitation creation time bound into candidate proof.
    pub fn created_at(&self) -> (value: UnixMilliseconds)
        ensures
            value == self@.created_at,
    {
        self.created_at
    }

    /// Returns the exclusive invitation expiration time.
    pub fn expires_at(&self) -> (value: UnixMilliseconds)
        ensures
            value == self@.expires_at,
    {
        self.expires_at
    }

    /// Returns the exact main Node identity bound into candidate proof.
    pub fn main_node_id(&self) -> (value: NodeId)
        ensures
            value == self@.main_node_id,
    {
        self.main_node_id
    }

    /// Returns the main private control address.
    pub fn main_address(&self) -> (value: &NodeAddress)
        ensures
            value@ == self@.main_address,
    {
        &self.main_address
    }

    /// Returns the exact authenticated private Node listener port.
    pub fn main_private_port(&self) -> (value: u16)
        ensures
            value == self@.main_private_port,
    {
        self.main_private_port
    }

    /// Returns the main public-key fingerprint asserted by pairing.
    pub fn main_public_key_sha256(&self) -> (value: Sha256Digest)
        ensures
            value == self@.main_public_key_sha256,
    {
        self.main_public_key_sha256
    }

    /// Returns the main pairing certificate fingerprint asserted by pairing.
    pub fn main_certificate_sha256(&self) -> (value: Sha256Digest)
        ensures
            value == self@.main_certificate_sha256,
    {
        self.main_certificate_sha256
    }
}

/// A challenge that was created, expires later and names a port.
pub open spec fn challenge_valid(challenge: NodePairingChallengeView) -> bool {
    &&& challenge.created_at.value > 0
    &&& challenge.created_at.value < challenge.expires_at.value
    &&& challenge.main_private_port > 0
}

impl NodePairingChallenge {
    /// Creates one complete challenge whose timestamps and trust identities are nonempty.
    pub fn new(
        invite_id: PairingInviteId,
        mode: NodePairingMode,
        nonce: Sha256Digest,
        created_at: UnixMilliseconds,
        expires_at: UnixMilliseconds,
        main_node_id: NodeId,
        main_address: NodeAddress,
        main_private_port: u16,
        main_public_key_sha256: Sha256Digest,
        main_certificate_sha256: Sha256Digest,
    ) -> (result: Result<Self, NodePairingApiError>)
        ensures
            ({
                let value = NodePairingChallengeView {
                    invite_id: invite_id,
                    mode: mode@,
                    nonce: nonce,
                    created_at: created_at,
                    expires_at: expires_at,
                    main_node_id: main_node_id,
                    main_address: main_address@,
                    main_private_port: main_private_port,
                    main_public_key_sha256: main_public_key_sha256,
                    main_certificate_sha256: main_certificate_sha256,
                };
                outcome(result) == if challenge_valid(value) {
                    Ok(value)
                } else {
                    Err(NodePairingApiError::InvalidResponse)
                }
            }),
    {
        if created_at.value == 0 || expires_at.value <= created_at.value || main_private_port == 0 {
            return Err(NodePairingApiError::InvalidResponse);
        }
        Ok(
            NodePairingChallenge {
                invite_id,
                mode,
                nonce,
                created_at,
                expires_at,
                main_node_id,
                main_address,
                main_private_port,
                main_public_key_sha256,
                main_certificate_sha256,
            },
        )
    }
}

/// Carries one verified-candidate input without exposing proof or setup material in diagnostics.
pub struct NodePairingEnrollRequest {
    pub(crate) idempotency_key: String,
    pub(crate) invite_id: PairingInviteId,
    pub(crate) candidate_identity: NodeIdentity,
    pub(crate) candidate_name: DisplayName,
    pub(crate) candidate_address: NodeAddress,
    pub(crate) candidate_public_key: Vec<u8>,
    pub(crate) installation_created_at: UnixMilliseconds,
    pub(crate) proof_signature: Vec<u8>,
    pub(crate) setup_code: Option<String>,
    pub(crate) observed_peer_address: NodeAddress,
}

/// What one [`NodePairingEnrollRequest`] holds.
pub struct NodePairingEnrollRequestView {
    pub idempotency_key: Seq<char>,
    pub invite_id: PairingInviteId,
    pub candidate_identity: NodeIdentity,
    pub candidate_name: Seq<char>,
    pub candidate_address: Seq<char>,
    pub candidate_public_key: Seq<u8>,
    pub installation_created_at: UnixMilliseconds,
    pub proof_signature: Seq<u8>,
    pub setup_code: Option<Seq<char>>,
    pub observed_peer_address: Seq<char>,
}

impl View for NodePairingEnrollRequest {
    type V = NodePairingEnrollRequestView;

    open(crate) spec fn view(&self) -> NodePairingEnrollRequestView {
        NodePairingEnrollRequestView {
            idempotency_key: self.idempotency_key@,
            invite_id: self.invite_id,
            candidate_identity: self.candidate_identity,
            candidate_name: self.candidate_name@,
            candidate_address: self.candidate_address@,
            candidate_public_key: self.candidate_public_key@,
            installation_created_at: self.installation_created_at,
            proof_signature: self.proof_signature@,
            setup_code: viewed(self.setup_code),
            observed_peer_address: self.observed_peer_address@,
        }
    }
}

impl Valued for NodePairingEnrollRequest {
    fn copy(&self) -> (copy: Self) {
        proof {
            use_type_invariant(self);
        }
        NodePairingEnrollRequest {
            idempotency_key: self.idempotency_key.copy(),
            invite_id: self.invite_id,
            candidate_identity: self.candidate_identity,
            candidate_name: self.candidate_name.copy(),
            candidate_address: self.candidate_address.copy(),
            candidate_public_key: copy_bytes(&self.candidate_public_key),
            installation_created_at: self.installation_created_at,
            proof_signature: copy_bytes(&self.proof_signature),
            setup_code: copy_optional(&self.setup_code),
            observed_peer_address: self.observed_peer_address.copy(),
        }
    }

    fn same(&self, other: &Self) -> (same: bool) {
        self.idempotency_key.same(&other.idempotency_key)
            && self.invite_id == other.invite_id
            && self.candidate_identity == other.candidate_identity
            && self.candidate_name.same(&other.candidate_name)
            && self.candidate_address.same(&other.candidate_address)
            && same_bytes(&self.candidate_public_key, &other.candidate_public_key)
            && self.installation_created_at == other.installation_created_at
            && same_bytes(&self.proof_signature, &other.proof_signature)
            && same_optional(&self.setup_code, &other.setup_code)
            && self.observed_peer_address.same(&other.observed_peer_address)
    }
}

impl NodePairingEnrollRequest {
    #[verifier::type_invariant]
    pub(crate) open(crate) spec fn is_valid(self) -> bool {
        enroll_request_valid(self@)
    }

    /// Returns the exact replay identity for the pairing and enrollment commit.
    pub fn idempotency_key(&self) -> (value: &str)
        ensures
            value@ == self@.idempotency_key,
    {
        self.idempotency_key.as_str()
    }

    /// Returns the invitation consumed by this candidate proof.
    pub fn invite_id(&self) -> (value: PairingInviteId)
        ensures
            value == self@.invite_id,
    {
        self.invite_id
    }

    /// Returns the exact candidate node identity bound into proof.
    pub fn candidate_identity(&self) -> (value: NodeIdentity)
        ensures
            value == self@.candidate_identity,
    {
        self.candidate_identity
    }

    /// Returns the candidate display name bound into proof.
    pub fn candidate_name(&self) -> (value: &DisplayName)
        ensures
            value@ == self@.candidate_name,
    {
        &self.candidate_name
    }

    /// Returns the candidate private control address bound into proof.
    pub fn candidate_address(&self) -> (value: &NodeAddress)
        ensures
            value@ == self@.candidate_address,
    {
        &self.candidate_address
    }

    /// Returns the exact candidate public-key bytes.
    pub fn candidate_public_key(&self) -> (values: &Vec<u8>)
        ensures
            values@ == self@.candidate_public_key,
    {
        &self.candidate_public_key
    }

    /// Returns the candidate installation creation time bound into proof.
    pub fn installation_created_at(&self) -> (value: UnixMilliseconds)
        ensures
            value == self@.installation_created_at,
    {
        self.installation_created_at
    }

    /// Returns the exact candidate proof signature bytes.
    pub fn proof_signature(&self) -> (values: &Vec<u8>)
        ensures
            values@ == self@.proof_signature,
    {
        &self.proof_signature
    }

    /// Returns the optional code required by LAN and remote invitations.
    pub fn setup_code(&self) -> (value: &Option<String>)
        ensures
            viewed(*value) == self@.setup_code,
    {
        &self.setup_code
    }

    /// Returns the peer address observed by the trusted local pairing protocol adapter.
    pub fn observed_peer_address(&self) -> (value: &NodeAddress)
        ensures
            value@ == self@.observed_peer_address,
    {
        &self.observed_peer_address
    }
}

/// A replay identity, a bounded key and proof, a creation time, and a code of eight digits if any.
pub open spec fn enroll_request_valid(request: NodePairingEnrollRequestView) -> bool {
    &&& replay_key_valid(request.idempotency_key)
    &&& MIN_PUBLIC_KEY_BYTES <= request.candidate_public_key.len() <= MAX_PUBLIC_KEY_BYTES
    &&& 0 < request.proof_signature.len() <= MAX_PROOF_BYTES
    &&& request.installation_created_at.value > 0
    &&& optional_code(request.setup_code, 8)
}

impl NodePairingEnrollRequest {
    /// Creates one bounded candidate request while leaving cryptographic judgment to pairing.
    pub fn new(
        idempotency_key: String,
        invite_id: PairingInviteId,
        candidate_identity: NodeIdentity,
        candidate_name: DisplayName,
        candidate_address: NodeAddress,
        candidate_public_key: Vec<u8>,
        installation_created_at: UnixMilliseconds,
        proof_signature: Vec<u8>,
        setup_code: Option<String>,
        observed_peer_address: NodeAddress,
    ) -> (result: Result<Self, NodePairingApiError>)
        ensures
            ({
                let value = NodePairingEnrollRequestView {
                    idempotency_key: idempotency_key@,
                    invite_id: invite_id,
                    candidate_identity: candidate_identity,
                    candidate_name: candidate_name@,
                    candidate_address: candidate_address@,
                    candidate_public_key: candidate_public_key@,
                    installation_created_at: installation_created_at,
                    proof_signature: proof_signature@,
                    setup_code: viewed(setup_code),
                    observed_peer_address: observed_peer_address@,
                };
                outcome(result) == if enroll_request_valid(value) {
                    Ok(value)
                } else {
                    Err(NodePairingApiError::InvalidRequest)
                }
            }),
    {
        require_idempotency_key(idempotency_key.as_str())?;
        if candidate_public_key.len() < MIN_PUBLIC_KEY_BYTES || candidate_public_key.len()
            > MAX_PUBLIC_KEY_BYTES || proof_signature.len() == 0 || proof_signature.len()
            > MAX_PROOF_BYTES || installation_created_at.value == 0 || !optional_code_is_valid(
            &setup_code,
            8,
        ) {
            return Err(NodePairingApiError::InvalidRequest);
        }
        Ok(
            NodePairingEnrollRequest {
                idempotency_key,
                invite_id,
                candidate_identity,
                candidate_name,
                candidate_address,
                candidate_public_key,
                installation_created_at,
                proof_signature,
                setup_code,
                observed_peer_address,
            },
        )
    }
}

/// Carries one replay-safe explicit approval of an already pending remote pairing.
#[derive(Debug)]
pub struct NodePairingApproveRequest {
    pub(crate) idempotency_key: String,
    pub(crate) invite_id: PairingInviteId,
}

/// What one [`NodePairingApproveRequest`] holds.
pub struct NodePairingApproveRequestView {
    pub idempotency_key: Seq<char>,
    pub invite_id: PairingInviteId,
}

impl View for NodePairingApproveRequest {
    type V = NodePairingApproveRequestView;

    open(crate) spec fn view(&self) -> NodePairingApproveRequestView {
        NodePairingApproveRequestView {
            idempotency_key: self.idempotency_key@,
            invite_id: self.invite_id,
        }
    }
}

impl Valued for NodePairingApproveRequest {
    fn copy(&self) -> (copy: Self) {
        proof {
            use_type_invariant(self);
        }
        NodePairingApproveRequest {
            idempotency_key: self.idempotency_key.copy(),
            invite_id: self.invite_id,
        }
    }

    fn same(&self, other: &Self) -> (same: bool) {
        self.idempotency_key.same(&other.idempotency_key)
            && self.invite_id == other.invite_id
    }
}

impl NodePairingApproveRequest {
    #[verifier::type_invariant]
    pub(crate) open(crate) spec fn is_valid(self) -> bool {
        approve_request_valid(self@)
    }

    /// Returns the replay identity for the complete atomic approval transaction.
    pub fn idempotency_key(&self) -> (value: &str)
        ensures
            value@ == self@.idempotency_key,
    {
        self.idempotency_key.as_str()
    }

    /// Returns the exact pending invitation to approve.
    pub fn invite_id(&self) -> (value: PairingInviteId)
        ensures
            value == self@.invite_id,
    {
        self.invite_id
    }
}

/// A bounded replay identity.
pub open spec fn approve_request_valid(request: NodePairingApproveRequestView) -> bool {
    replay_key_valid(request.idempotency_key)
}

impl NodePairingApproveRequest {
    /// Creates one approval request from an exact invitation and bounded replay identity.
    pub fn new(
        idempotency_key: String,
        invite_id: PairingInviteId,
    ) -> (result: Result<Self, NodePairingApiError>)
        ensures
            ({
                let value = NodePairingApproveRequestView {
                    idempotency_key: idempotency_key@,
                    invite_id: invite_id,
                };
                outcome(result) == if approve_request_valid(value) {
                    Ok(value)
                } else {
                    Err(NodePairingApiError::InvalidRequest)
                }
            }),
    {
        require_idempotency_key(idempotency_key.as_str())?;
        Ok(
            NodePairingApproveRequest {
                idempotency_key,
                invite_id,
            },
        )
    }
}

/// Projects one durable pairing state without exposing persistence record shapes.
pub struct NodePairingStatus {
    pub(crate) invite_id: PairingInviteId,
    pub(crate) mode: NodePairingMode,
    pub(crate) state: NodePairingState,
    pub(crate) expires_at: UnixMilliseconds,
    pub(crate) attempts: u8,
    pub(crate) child_node_id: Option<NodeId>,
    pub(crate) comparison_code: Option<String>,
}

/// What one [`NodePairingStatus`] holds.
pub struct NodePairingStatusView {
    pub invite_id: PairingInviteId,
    pub mode: NodePairingModeView,
    pub state: NodePairingState,
    pub expires_at: UnixMilliseconds,
    pub attempts: u8,
    pub child_node_id: Option<NodeId>,
    pub comparison_code: Option<Seq<char>>,
}

impl View for NodePairingStatus {
    type V = NodePairingStatusView;

    open(crate) spec fn view(&self) -> NodePairingStatusView {
        NodePairingStatusView {
            invite_id: self.invite_id,
            mode: self.mode@,
            state: self.state,
            expires_at: self.expires_at,
            attempts: self.attempts,
            child_node_id: self.child_node_id,
            comparison_code: viewed(self.comparison_code),
        }
    }
}

impl Valued for NodePairingStatus {
    fn copy(&self) -> (copy: Self) {
        proof {
            use_type_invariant(self);
        }
        NodePairingStatus {
            invite_id: self.invite_id,
            mode: self.mode.copy(),
            state: self.state,
            expires_at: self.expires_at,
            attempts: self.attempts,
            child_node_id: self.child_node_id,
            comparison_code: copy_optional(&self.comparison_code),
        }
    }

    fn same(&self, other: &Self) -> (same: bool) {
        self.invite_id == other.invite_id
            && self.mode.same(&other.mode)
            && self.state == other.state
            && self.expires_at == other.expires_at
            && self.attempts == other.attempts
            && self.child_node_id == other.child_node_id
            && same_optional(&self.comparison_code, &other.comparison_code)
    }
}

impl NodePairingStatus {
    #[verifier::type_invariant]
    pub(crate) open(crate) spec fn is_valid(self) -> bool {
        status_valid(self@)
    }

    /// Returns the exact invitation represented by this status.
    pub fn invite_id(&self) -> (value: PairingInviteId)
        ensures
            value == self@.invite_id,
    {
        self.invite_id
    }

    /// Returns the invitation authorization mode.
    pub fn mode(&self) -> (value: &NodePairingMode)
        ensures
            value@ == self@.mode,
    {
        &self.mode
    }

    /// Returns the durable pairing lifecycle state.
    pub fn state(&self) -> (value: NodePairingState)
        ensures
            value == self@.state,
    {
        self.state
    }

    /// Returns the exclusive pairing expiration boundary.
    pub fn expires_at(&self) -> (value: UnixMilliseconds)
        ensures
            value == self@.expires_at,
    {
        self.expires_at
    }

    /// Returns the number of rejected candidate attempts.
    pub fn attempts(&self) -> (value: u8)
        ensures
            value == self@.attempts,
    {
        self.attempts
    }

    /// Returns the exact verified child identity after candidate proof.
    pub fn child_node_id(&self) -> (value: Option<NodeId>)
        ensures
            value == self@.child_node_id,
    {
        self.child_node_id
    }

    /// Returns the remote comparison code only to an authenticated presentation owner.
    pub fn comparison_code(&self) -> (value: &Option<String>)
        ensures
            viewed(*value) == self@.comparison_code,
    {
        &self.comparison_code
    }
}

/// A status whose child and comparison code fit its state: none while open, both while a remote
/// pairing awaits approval, only the child once active.
pub open spec fn status_valid(status: NodePairingStatusView) -> bool {
    &&& status.expires_at.value > 0
    &&& status.attempts <= 5
    &&& match status.state {
        NodePairingState::Open => status.child_node_id is None && status.comparison_code is None,
        NodePairingState::PendingApproval => status.mode is Remote && status.child_node_id is Some
            && status.comparison_code is Some && optional_code(status.comparison_code, 6),
        NodePairingState::Active => status.child_node_id is Some && status.comparison_code is None,
    }
}

impl NodePairingStatus {
    /// Creates one coherent open, pending, or active status projection.
    pub fn new(
        invite_id: PairingInviteId,
        mode: NodePairingMode,
        state: NodePairingState,
        expires_at: UnixMilliseconds,
        attempts: u8,
        child_node_id: Option<NodeId>,
        comparison_code: Option<String>,
    ) -> (result: Result<Self, NodePairingApiError>)
        ensures
            ({
                let value = NodePairingStatusView {
                    invite_id: invite_id,
                    mode: mode@,
                    state: state,
                    expires_at: expires_at,
                    attempts: attempts,
                    child_node_id: child_node_id,
                    comparison_code: viewed(comparison_code),
                };
                outcome(result) == if status_valid(value) {
                    Ok(value)
                } else {
                    Err(NodePairingApiError::InvalidResponse)
                }
            }),
    {
        let shape_is_valid = match state {
            NodePairingState::Open => child_node_id.is_none() && comparison_code.is_none(),
            NodePairingState::PendingApproval => {
                let remote = match &mode {
                    NodePairingMode::Remote => true,
                    _ => false,
                };
                remote && child_node_id.is_some() && comparison_code.is_some()
                    && optional_code_is_valid(&comparison_code, 6)
            },
            NodePairingState::Active => child_node_id.is_some() && comparison_code.is_none(),
        };
        if expires_at.value == 0 || attempts > 5 || !shape_is_valid {
            return Err(NodePairingApiError::InvalidResponse);
        }
        Ok(
            NodePairingStatus {
                invite_id,
                mode,
                state,
                expires_at,
                attempts,
                child_node_id,
                comparison_code,
            },
        )
    }
}

/// Carries the bounded public trust package issued for one verified child.
pub struct NodePairingCredentials {
    pub(crate) main_public_key: Vec<u8>,
    pub(crate) main_ca_certificate: Vec<u8>,
    pub(crate) child_certificate: Vec<u8>,
    pub(crate) membership_signature: Vec<u8>,
    pub(crate) child_leaf_sha256: Sha256Digest,
    pub(crate) valid_from: UnixMilliseconds,
    pub(crate) expires_at: UnixMilliseconds,
}

/// What one [`NodePairingCredentials`] holds.
pub struct NodePairingCredentialsView {
    pub main_public_key: Seq<u8>,
    pub main_ca_certificate: Seq<u8>,
    pub child_certificate: Seq<u8>,
    pub membership_signature: Seq<u8>,
    pub child_leaf_sha256: Sha256Digest,
    pub valid_from: UnixMilliseconds,
    pub expires_at: UnixMilliseconds,
}

impl View for NodePairingCredentials {
    type V = NodePairingCredentialsView;

    open(crate) spec fn view(&self) -> NodePairingCredentialsView {
        NodePairingCredentialsView {
            main_public_key: self.main_public_key@,
            main_ca_certificate: self.main_ca_certificate@,
            child_certificate: self.child_certificate@,
            membership_signature: self.membership_signature@,
            child_leaf_sha256: self.child_leaf_sha256,
            valid_from: self.valid_from,
            expires_at: self.expires_at,
        }
    }
}

impl Valued for NodePairingCredentials {
    fn copy(&self) -> (copy: Self) {
        proof {
            use_type_invariant(self);
        }
        NodePairingCredentials {
            main_public_key: copy_bytes(&self.main_public_key),
            main_ca_certificate: copy_bytes(&self.main_ca_certificate),
            child_certificate: copy_bytes(&self.child_certificate),
            membership_signature: copy_bytes(&self.membership_signature),
            child_leaf_sha256: self.child_leaf_sha256,
            valid_from: self.valid_from,
            expires_at: self.expires_at,
        }
    }

    fn same(&self, other: &Self) -> (same: bool) {
        same_bytes(&self.main_public_key, &other.main_public_key)
            && same_bytes(&self.main_ca_certificate, &other.main_ca_certificate)
            && same_bytes(&self.child_certificate, &other.child_certificate)
            && same_bytes(&self.membership_signature, &other.membership_signature)
            && self.child_leaf_sha256 == other.child_leaf_sha256
            && self.valid_from == other.valid_from
            && self.expires_at == other.expires_at
    }
}

impl NodePairingCredentials {
    #[verifier::type_invariant]
    pub(crate) open(crate) spec fn is_valid(self) -> bool {
        credentials_valid(self@)
    }

    /// Returns the main public key distributed to the child.
    pub fn main_public_key(&self) -> (values: &Vec<u8>)
        ensures
            values@ == self@.main_public_key,
    {
        &self.main_public_key
    }

    /// Returns the exact main CA certificate distributed to the child.
    pub fn main_ca_certificate(&self) -> (values: &Vec<u8>)
        ensures
            values@ == self@.main_ca_certificate,
    {
        &self.main_ca_certificate
    }

    /// Returns the issued child certificate.
    pub fn child_certificate(&self) -> (values: &Vec<u8>)
        ensures
            values@ == self@.child_certificate,
    {
        &self.child_certificate
    }

    /// Returns the main signature over membership state.
    pub fn membership_signature(&self) -> (values: &Vec<u8>)
        ensures
            values@ == self@.membership_signature,
    {
        &self.membership_signature
    }

    /// Returns the SHA-256 digest of the exact issued child certificate leaf.
    pub fn child_leaf_sha256(&self) -> (value: Sha256Digest)
        ensures
            value == self@.child_leaf_sha256,
    {
        self.child_leaf_sha256
    }

    /// Returns the inclusive child-certificate validity start.
    pub fn valid_from(&self) -> (value: UnixMilliseconds)
        ensures
            value == self@.valid_from,
    {
        self.valid_from
    }

    /// Returns the exclusive child-certificate expiration boundary.
    pub fn expires_at(&self) -> (value: UnixMilliseconds)
        ensures
            value == self@.expires_at,
    {
        self.expires_at
    }
}

/// One part of a credential package: not empty and bounded.
pub open spec fn credential_part(bytes: Seq<u8>) -> bool {
    0 < bytes.len() <= MAX_CREDENTIAL_BYTES
}

/// Four bounded parts and a validity that ends after it starts.
pub open spec fn credentials_valid(credentials: NodePairingCredentialsView) -> bool {
    &&& credential_part(credentials.main_public_key)
    &&& credential_part(credentials.main_ca_certificate)
    &&& credential_part(credentials.child_certificate)
    &&& credential_part(credentials.membership_signature)
    &&& credentials.valid_from.value < credentials.expires_at.value
}

fn is_credential_part(bytes: &Vec<u8>) -> (is_part: bool)
    ensures
        is_part == credential_part(bytes@),
{
    bytes.len() > 0 && bytes.len() <= MAX_CREDENTIAL_BYTES
}

impl NodePairingCredentials {
    /// Creates one exact nonempty bounded public credential package.
    pub fn new(
        main_public_key: Vec<u8>,
        main_ca_certificate: Vec<u8>,
        child_certificate: Vec<u8>,
        membership_signature: Vec<u8>,
        child_leaf_sha256: Sha256Digest,
        valid_from: UnixMilliseconds,
        expires_at: UnixMilliseconds,
    ) -> (result: Result<Self, NodePairingApiError>)
        ensures
            ({
                let value = NodePairingCredentialsView {
                    main_public_key: main_public_key@,
                    main_ca_certificate: main_ca_certificate@,
                    child_certificate: child_certificate@,
                    membership_signature: membership_signature@,
                    child_leaf_sha256: child_leaf_sha256,
                    valid_from: valid_from,
                    expires_at: expires_at,
                };
                outcome(result) == if credentials_valid(value) {
                    Ok(value)
                } else {
                    Err(NodePairingApiError::InvalidResponse)
                }
            }),
    {
        if !is_credential_part(&main_public_key) || !is_credential_part(&main_ca_certificate)
            || !is_credential_part(&child_certificate) || !is_credential_part(&membership_signature)
            || expires_at.value <= valid_from.value {
            return Err(NodePairingApiError::InvalidResponse);
        }
        Ok(
            NodePairingCredentials {
                main_public_key,
                main_ca_certificate,
                child_certificate,
                membership_signature,
                child_leaf_sha256,
                valid_from,
                expires_at,
            },
        )
    }
}

/// Returns one completed enrollment and the exact public trust package for its child.
pub struct NodePairingEnrollment {
    pub(crate) status: NodePairingStatus,
    pub(crate) credentials: NodePairingCredentials,
}

/// What one [`NodePairingEnrollment`] holds.
pub struct NodePairingEnrollmentView {
    pub status: NodePairingStatusView,
    pub credentials: NodePairingCredentialsView,
}

impl View for NodePairingEnrollment {
    type V = NodePairingEnrollmentView;

    open(crate) spec fn view(&self) -> NodePairingEnrollmentView {
        NodePairingEnrollmentView {
            status: self.status@,
            credentials: self.credentials@,
        }
    }
}

impl Valued for NodePairingEnrollment {
    fn copy(&self) -> (copy: Self) {
        proof {
            use_type_invariant(self);
        }
        NodePairingEnrollment {
            status: self.status.copy(),
            credentials: self.credentials.copy(),
        }
    }

    fn same(&self, other: &Self) -> (same: bool) {
        self.status.same(&other.status)
            && self.credentials.same(&other.credentials)
    }
}

impl NodePairingEnrollment {
    #[verifier::type_invariant]
    pub(crate) open(crate) spec fn is_valid(self) -> bool {
        enrollment_valid(self@)
    }

    /// Returns the durable state resulting from enrollment.
    pub fn status(&self) -> (value: &NodePairingStatus)
        ensures
            value@ == self@.status,
    {
        &self.status
    }

    /// Returns the exact public trust package issued to the child.
    pub fn credentials(&self) -> (value: &NodePairingCredentials)
        ensures
            value@ == self@.credentials,
    {
        &self.credentials
    }
}

/// A status past open that expires no later than the credentials.
pub open spec fn enrollment_valid(enrollment: NodePairingEnrollmentView) -> bool {
    &&& enrollment.status.state != NodePairingState::Open
    &&& enrollment.status.expires_at.value <= enrollment.credentials.expires_at.value
}

impl NodePairingEnrollment {
    /// Creates one enrollment only from a verified pending or active pairing status.
    pub fn new(
        status: NodePairingStatus,
        credentials: NodePairingCredentials,
    ) -> (result: Result<Self, NodePairingApiError>)
        ensures
            ({
                let value = NodePairingEnrollmentView {
                    status: status@,
                    credentials: credentials@,
                };
                outcome(result) == if enrollment_valid(value) {
                    Ok(value)
                } else {
                    Err(NodePairingApiError::InvalidResponse)
                }
            }),
    {
        if status.state == NodePairingState::Open || status.expires_at.value
            > credentials.expires_at.value {
            return Err(NodePairingApiError::InvalidResponse);
        }
        Ok(
            NodePairingEnrollment {
                status,
                credentials,
            },
        )
    }
}

} // verus!
