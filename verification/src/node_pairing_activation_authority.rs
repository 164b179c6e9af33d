//! The paired authority: one atomic step into child authority and back, with its verification.

use vstd::prelude::*;

use crate::database::{DatabaseError, NodeManagerError, Stored, StoredView};
use crate::entity::{Node, NodeRole, NodeState, NodeView};
use crate::identity::Sha256Digest;
use crate::node_manager::{NodeManagerChange, NodeManagerChangeView};
use crate::node_pairing_api::{NodePairingCredentials, NodePairingCredentialsView};
use crate::node_peer_credential_database::{
    credential_creation, credential_deletion, AuthenticationStoreError,
    DatabasePeerCredentialStore, PeerCredential, PeerCredentialDirection, PeerCredentialState,
    PeerCredentialWrite, PeerCredentialWriteView, VersionedPeerCredential,
};
use crate::sequence::{outcome, viewed, Valued};
use crate::text::{byte_length, text_bytes};

verus! {

/// The largest replay identity in bytes.
pub const MAXIMUM_IDEMPOTENCY_KEY_BYTES: usize = 255;

/// Describes one stable atomic pairing authority failure without database detail.
#[derive(Clone, Copy, Debug, PartialEq, Eq, Structural)]
pub enum NodePairingActivationAuthorityError {
    InvalidRequest,
    AuthorityConflict,
    Unavailable,
    RecoveryRequired,
}

impl NodePairingActivationAuthorityError {
    /// The fixed text of the failure.
    pub open spec fn text(self) -> Seq<char> {
        match self {
            NodePairingActivationAuthorityError::InvalidRequest => {
                "pairing authority request is invalid"@
            },
            NodePairingActivationAuthorityError::AuthorityConflict => {
                "pairing authority state conflicts"@
            },
            NodePairingActivationAuthorityError::Unavailable => "pairing authority is unavailable"@,
            NodePairingActivationAuthorityError::RecoveryRequired => {
                "pairing authority requires recovery"@
            },
        }
    }

    /// Presents fixed language safe for the local private API boundary.
    pub fn message(&self) -> (text: &'static str)
        ensures
            text@ == self.text(),
    {
        match self {
            NodePairingActivationAuthorityError::InvalidRequest => {
                "pairing authority request is invalid"
            },
            NodePairingActivationAuthorityError::AuthorityConflict => {
                "pairing authority state conflicts"
            },
            NodePairingActivationAuthorityError::Unavailable => "pairing authority is unavailable",
            NodePairingActivationAuthorityError::RecoveryRequired => {
                "pairing authority requires recovery"
            },
        }
    }
}

/// A bounded replay identity and one active main.
pub open spec fn authority_request_valid(idempotency_key: Seq<char>, main: NodeView) -> bool {
    &&& 0 < byte_length(idempotency_key) <= MAXIMUM_IDEMPOTENCY_KEY_BYTES
    &&& main.is_active_main()
}

/// Rejects malformed replay or authority identities before any state observation or mutation.
fn validate_request(idempotency_key: &str, main: &Node) -> (result: Result<
    (),
    NodePairingActivationAuthorityError,
>)
    ensures
        result == (if authority_request_valid(idempotency_key@, main@) {
            Ok::<(), NodePairingActivationAuthorityError>(())
        } else {
            Err(NodePairingActivationAuthorityError::InvalidRequest)
        }),
{
    let length: usize = text_bytes(idempotency_key);
    if length == 0 || length > MAXIMUM_IDEMPOTENCY_KEY_BYTES || !main.is_active_main() {
        return Err(NodePairingActivationAuthorityError::InvalidRequest);
    }
    Ok(())
}

/// Carries one exact verified authority package into the atomic paired-child transition.
pub struct NodePairedChildActivationRequest {
    pub(crate) idempotency_key: String,
    pub(crate) main: Node,
    pub(crate) main_certificate_sha256: Sha256Digest,
    pub(crate) credentials: NodePairingCredentials,
}

/// What one [`NodePairedChildActivationRequest`] holds.
pub struct NodePairedChildActivationRequestView {
    pub idempotency_key: Seq<char>,
    pub main: NodeView,
    pub main_certificate_sha256: Sha256Digest,
    pub credentials: NodePairingCredentialsView,
}

impl View for NodePairedChildActivationRequest {
    type V = NodePairedChildActivationRequestView;

    open(crate) spec fn view(&self) -> NodePairedChildActivationRequestView {
        NodePairedChildActivationRequestView {
            idempotency_key: self.idempotency_key@,
            main: self.main@,
            main_certificate_sha256: self.main_certificate_sha256,
            credentials: self.credentials@,
        }
    }
}

impl Valued for NodePairedChildActivationRequest {
    fn copy(&self) -> (copy: Self) {
        proof {
            use_type_invariant(self);
        }
        NodePairedChildActivationRequest {
            idempotency_key: self.idempotency_key.copy(),
            main: self.main.copy(),
            main_certificate_sha256: self.main_certificate_sha256,
            credentials: self.credentials.copy(),
        }
    }

    fn same(&self, other: &Self) -> (same: bool) {
        self.idempotency_key.same(&other.idempotency_key)
            && self.main.same(&other.main)
            && self.main_certificate_sha256 == other.main_certificate_sha256
            && self.credentials.same(&other.credentials)
    }
}

impl NodePairedChildActivationRequest {
    #[verifier::type_invariant]
    pub(crate) open(crate) spec fn is_valid(self) -> bool {
        authority_request_valid(self@.idempotency_key, self@.main)
    }

    /// Returns the exact database replay identity owned by the pairing saga.
    pub fn idempotency_key(&self) -> (value: &str)
        ensures
            value@ == self@.idempotency_key,
    {
        self.idempotency_key.as_str()
    }

    /// Returns the verified destination main authority.
    pub fn main(&self) -> (value: &Node)
        ensures
            value@ == self@.main,
    {
        &self.main
    }

    /// Returns the verified main TLS leaf identity committed with child authority.
    pub fn main_certificate_sha256(&self) -> (value: Sha256Digest)
        ensures
            value == self@.main_certificate_sha256,
    {
        self.main_certificate_sha256
    }

    /// Returns the public credential package whose validity bounds the trust record.
    pub fn credentials(&self) -> (value: &NodePairingCredentials)
        ensures
            value@ == self@.credentials,
    {
        &self.credentials
    }
}

impl NodePairedChildActivationRequest {
    /// Creates one bounded activation request without accepting a caller-owned database revision.
    pub fn new(
        idempotency_key: String,
        main: Node,
        main_certificate_sha256: Sha256Digest,
        credentials: NodePairingCredentials,
    ) -> (result: Result<Self, NodePairingActivationAuthorityError>)
        ensures
            outcome(result) == (if authority_request_valid(idempotency_key@, main@) {
                Ok::<NodePairedChildActivationRequestView, NodePairingActivationAuthorityError>(
                    NodePairedChildActivationRequestView {
                        idempotency_key: idempotency_key@,
                        main: main@,
                        main_certificate_sha256,
                        credentials: credentials@,
                    },
                )
            } else {
                Err(NodePairingActivationAuthorityError::InvalidRequest)
            }),
    {
        validate_request(idempotency_key.as_str(), &main)?;
        Ok(NodePairedChildActivationRequest { idempotency_key, main, main_certificate_sha256, credentials })
    }
}

/// Carries the exact activation identity required to atomically restore standalone main authority.
pub struct NodePairedMainRestorationRequest {
    pub(crate) idempotency_key: String,
    pub(crate) main: Node,
    pub(crate) main_certificate_sha256: Sha256Digest,
    pub(crate) credentials: NodePairingCredentials,
}

/// What one [`NodePairedMainRestorationRequest`] holds.
pub struct NodePairedMainRestorationRequestView {
    pub idempotency_key: Seq<char>,
    pub main: NodeView,
    pub main_certificate_sha256: Sha256Digest,
    pub credentials: NodePairingCredentialsView,
}

impl View for NodePairedMainRestorationRequest {
    type V = NodePairedMainRestorationRequestView;

    open(crate) spec fn view(&self) -> NodePairedMainRestorationRequestView {
        NodePairedMainRestorationRequestView {
            idempotency_key: self.idempotency_key@,
            main: self.main@,
            main_certificate_sha256: self.main_certificate_sha256,
            credentials: self.credentials@,
        }
    }
}

impl Valued for NodePairedMainRestorationRequest {
    fn copy(&self) -> (copy: Self) {
        proof {
            use_type_invariant(self);
        }
        NodePairedMainRestorationRequest {
            idempotency_key: self.idempotency_key.copy(),
            main: self.main.copy(),
            main_certificate_sha256: self.main_certificate_sha256,
            credentials: self.credentials.copy(),
        }
    }

    fn same(&self, other: &Self) -> (same: bool) {
        self.idempotency_key.same(&other.idempotency_key)
            && self.main.same(&other.main)
            && self.main_certificate_sha256 == other.main_certificate_sha256
            && self.credentials.same(&other.credentials)
    }
}

impl NodePairedMainRestorationRequest {
    #[verifier::type_invariant]
    pub(crate) open(crate) spec fn is_valid(self) -> bool {
        authority_request_valid(self@.idempotency_key, self@.main)
    }

    /// Returns the exact database replay identity owned by compensation.
    pub fn idempotency_key(&self) -> (value: &str)
        ensures
            value@ == self@.idempotency_key,
    {
        self.idempotency_key.as_str()
    }

    /// Returns the exact paired main authority that must be retired.
    pub fn main(&self) -> (value: &Node)
        ensures
            value@ == self@.main,
    {
        &self.main
    }

    /// Returns the exact activation-owned credential leaf that must be deleted.
    pub fn main_certificate_sha256(&self) -> (value: Sha256Digest)
        ensures
            value == self@.main_certificate_sha256,
    {
        self.main_certificate_sha256
    }

    /// Returns the public package used to reconstruct the exact expected credential.
    pub fn credentials(&self) -> (value: &NodePairingCredentials)
        ensures
            value@ == self@.credentials,
    {
        &self.credentials
    }
}

impl NodePairedMainRestorationRequest {
    /// Creates one bounded restoration request bound to the activation-owned main and credential.
    pub fn new(
        idempotency_key: String,
        main: Node,
        main_certificate_sha256: Sha256Digest,
        credentials: NodePairingCredentials,
    ) -> (result: Result<Self, NodePairingActivationAuthorityError>)
        ensures
            outcome(result) == (if authority_request_valid(idempotency_key@, main@) {
                Ok::<NodePairedMainRestorationRequestView, NodePairingActivationAuthorityError>(
                    NodePairedMainRestorationRequestView {
                        idempotency_key: idempotency_key@,
                        main: main@,
                        main_certificate_sha256,
                        credentials: credentials@,
                    },
                )
            } else {
                Err(NodePairingActivationAuthorityError::InvalidRequest)
            }),
    {
        validate_request(idempotency_key.as_str(), &main)?;
        Ok(NodePairedMainRestorationRequest { idempotency_key, main, main_certificate_sha256, credentials })
    }
}

/// Distinguishes a new atomic authority commit from an exact observed replay.
#[derive(Clone, Copy, Debug, PartialEq, Eq, Structural)]
pub enum NodePairingAuthorityDisposition {
    Applied,
    Replayed,
}

/// Returns the local Node snapshot committed by one paired authority transaction.
#[derive(Debug)]
pub struct NodePairingAuthorityReceipt {
    pub local: Node,
    pub disposition: NodePairingAuthorityDisposition,
}

/// What one [`NodePairingAuthorityReceipt`] holds.
pub struct NodePairingAuthorityReceiptView {
    pub local: NodeView,
    pub disposition: NodePairingAuthorityDisposition,
}

impl View for NodePairingAuthorityReceipt {
    type V = NodePairingAuthorityReceiptView;

    open spec fn view(&self) -> NodePairingAuthorityReceiptView {
        NodePairingAuthorityReceiptView {
            local: self.local@,
            disposition: self.disposition,
        }
    }
}

impl Valued for NodePairingAuthorityReceipt {
    fn copy(&self) -> (copy: Self) {
        NodePairingAuthorityReceipt {
            local: self.local.copy(),
            disposition: self.disposition,
        }
    }

    fn same(&self, other: &Self) -> (same: bool) {
        self.local.same(&other.local)
            && self.disposition == other.disposition
    }
}

impl NodePairingAuthorityReceipt {
    /// Returns the exact local Node snapshot after activation or restoration.
    pub fn local(&self) -> (value: &Node)
        ensures
            value@ == self@.local,
    {
        &self.local
    }

    /// Returns whether the authority transaction applied or exactly replayed.
    pub fn disposition(&self) -> (value: NodePairingAuthorityDisposition)
        ensures
            value == self@.disposition,
    {
        self.disposition
    }
}

impl NodePairingAuthorityReceipt {
    /// Restores one receipt after a transport validates its closed fields.
    pub fn restore(local: Node, disposition: NodePairingAuthorityDisposition) -> (receipt: Self)
        ensures
            receipt@ == (NodePairingAuthorityReceiptView { local: local@, disposition }),
    {
        NodePairingAuthorityReceipt { local, disposition }
    }
}

/// The authority failure of one node failure.
pub open spec fn authority_failure(error: NodeManagerError) -> NodePairingActivationAuthorityError {
    match error {
        NodeManagerError::Database(DatabaseError::Conflict { .. })
        | NodeManagerError::Database(DatabaseError::IdempotencyConflict)
        | NodeManagerError::InvalidLocalRoleTransition { .. }
        | NodeManagerError::NodeIdentityConflict { .. } => {
            NodePairingActivationAuthorityError::AuthorityConflict
        },
        NodeManagerError::CorruptState { .. } => {
            NodePairingActivationAuthorityError::RecoveryRequired
        },
        _ => NodePairingActivationAuthorityError::Unavailable,
    }
}

/// Maps node failures into one closed local authority error surface.
pub fn authority_manager_error(
    error: NodeManagerError,
) -> (mapped: NodePairingActivationAuthorityError)
    ensures
        mapped == authority_failure(error),
{
    match error {
        NodeManagerError::Database(DatabaseError::Conflict { .. })
        | NodeManagerError::Database(DatabaseError::IdempotencyConflict)
        | NodeManagerError::InvalidLocalRoleTransition { .. }
        | NodeManagerError::NodeIdentityConflict { .. } => {
            NodePairingActivationAuthorityError::AuthorityConflict
        },
        NodeManagerError::CorruptState { .. } => {
            NodePairingActivationAuthorityError::RecoveryRequired
        },
        _ => NodePairingActivationAuthorityError::Unavailable,
    }
}

/// The credential that one local node expects of its main: named by the first half of the leaf.
pub open spec fn expected_credential(
    local: NodeView,
    main: NodeView,
    main_certificate_sha256: Sha256Digest,
    credentials: NodePairingCredentialsView,
) -> Result<PeerCredential, NodePairingActivationAuthorityError> {
    if credentials.valid_from.value < credentials.expires_at.value {
        Ok(
            PeerCredential {
                credential_id: main_certificate_sha256.credential(),
                peer_leaf_sha256: main_certificate_sha256,
                local_node_id: local.identity.node_id,
                peer_node_id: main.identity.node_id,
                direction: PeerCredentialDirection::MainToChild,
                state: PeerCredentialState::Active,
                issued_at: credentials.valid_from,
                expires_at: credentials.expires_at,
                revoked_at: None,
                rotated_to: None,
            },
        )
    } else {
        Err(NodePairingActivationAuthorityError::InvalidRequest)
    }
}

/// Returns the exact expected non-secret credential for one local/main authority pair.
pub fn credential(
    local: &Node,
    main: &Node,
    main_certificate_sha256: &Sha256Digest,
    credentials: &NodePairingCredentials,
) -> (credential: Result<PeerCredential, NodePairingActivationAuthorityError>)
    ensures
        credential == expected_credential(local@, main@, *main_certificate_sha256, credentials@),
{
    match PeerCredential::new_with_state(
        PeerCredential {
            credential_id: main_certificate_sha256.credential_id(),
            peer_leaf_sha256: *main_certificate_sha256,
            local_node_id: local.identity.node_id,
            peer_node_id: main.identity.node_id,
            direction: PeerCredentialDirection::MainToChild,
            state: PeerCredentialState::Active,
            issued_at: credentials.valid_from,
            expires_at: credentials.expires_at,
            revoked_at: None,
            rotated_to: None,
        },
    ) {
        Ok(credential) => Ok(credential),
        Err(_) => Err(NodePairingActivationAuthorityError::InvalidRequest),
    }
}

/// The answer to one credential lookup.
pub type CredentialLookup = Result<Option<VersionedPeerCredential>, AuthenticationStoreError>;

// ---------------------------------------------------------------------------
// Activation
// ---------------------------------------------------------------------------

/// What one activation commits together with the role change.
pub struct ActivationPlan {
    pub credential: PeerCredential,
    pub write: Option<PeerCredentialWrite>,
}

/// What one [`ActivationPlan`] holds.
pub struct ActivationPlanView {
    pub credential: PeerCredential,
    pub write: Option<PeerCredentialWriteView>,
}

impl View for ActivationPlan {
    type V = ActivationPlanView;

    open spec fn view(&self) -> ActivationPlanView {
        ActivationPlanView { credential: self.credential, write: viewed(self.write) }
    }
}

/// What activating one paired child commits: the credential is created unless it is there already,
/// and nothing happens when another one is there.
pub open spec fn activation_planned(
    local: Result<StoredView<NodeView>, NodeManagerError>,
    request: NodePairedChildActivationRequestView,
    transaction_opened: bool,
    existing: CredentialLookup,
) -> Result<ActivationPlanView, NodePairingActivationAuthorityError> {
    match local {
        Err(error) => Err(authority_failure(error)),
        Ok(local) => match expected_credential(
            local.value,
            request.main,
            request.main_certificate_sha256,
            request.credentials,
        ) {
            Err(error) => Err(error),
            Ok(credential) => if !transaction_opened {
                Err(NodePairingActivationAuthorityError::InvalidRequest)
            } else {
                match existing {
                    Err(_) => Err(NodePairingActivationAuthorityError::Unavailable),
                    Ok(Some(existing)) => if existing.credential == credential {
                        Ok(ActivationPlanView { credential, write: None })
                    } else {
                        Err(NodePairingActivationAuthorityError::AuthorityConflict)
                    },
                    Ok(None) => Ok(
                        ActivationPlanView {
                            credential,
                            write: Some(credential_creation(credential)),
                        },
                    ),
                }
            },
        },
    }
}

/// Decides what one activation commits, from the local node, whether its transaction could be
/// opened and the stored credential of the main's leaf.
pub fn plan_activation(
    local: &Result<Stored<Node>, NodeManagerError>,
    request: &NodePairedChildActivationRequest,
    transaction_opened: bool,
    existing: CredentialLookup,
) -> (plan: Result<ActivationPlan, NodePairingActivationAuthorityError>)
    ensures
        outcome(plan) == activation_planned(
            outcome(*local),
            request@,
            transaction_opened,
            existing,
        ),
{
    let local = match local {
        Ok(local) => local,
        Err(error) => {
            return Err(authority_manager_error(*error));
        },
    };
    let credential = credential(
        &local.value,
        &request.main,
        &request.main_certificate_sha256,
        &request.credentials,
    )?;
    if !transaction_opened {
        return Err(NodePairingActivationAuthorityError::InvalidRequest);
    }
    match existing {
        Err(_) => Err(NodePairingActivationAuthorityError::Unavailable),
        Ok(Some(existing)) => {
            if existing.credential != credential {
                return Err(NodePairingActivationAuthorityError::AuthorityConflict);
            }
            Ok(ActivationPlan { credential, write: None })
        },
        Ok(None) => Ok(
            ActivationPlan { credential, write: Some(DatabasePeerCredentialStore::creating_transaction(&credential)) },
        ),
    }
}

/// The local node is the active child of exactly one main, with exactly one credential for it.
pub open spec fn child_verified(
    local: NodeView,
    main: NodeView,
    credential: PeerCredential,
    observed: CredentialLookup,
    authority: Result<NodeView, NodeManagerError>,
) -> bool {
    &&& observed matches Ok(Some(observed)) && observed.credential == credential
    &&& authority == Ok::<NodeView, NodeManagerError>(main)
    &&& local.role == NodeRole::Child
    &&& local.state == NodeState::Active
}

/// Requires post-transaction credential and role state to match one paired child exactly.
pub fn verify_child(
    local: Node,
    main: &Node,
    credential: &PeerCredential,
    observed: CredentialLookup,
    authority: &Result<Node, NodeManagerError>,
) -> (verified: Result<Node, NodePairingActivationAuthorityError>)
    ensures
        outcome(verified) == (if child_verified(
            local@,
            main@,
            *credential,
            observed,
            outcome(*authority),
        ) {
            Ok::<NodeView, NodePairingActivationAuthorityError>(local@)
        } else {
            Err(NodePairingActivationAuthorityError::RecoveryRequired)
        }),
{
    match (observed, authority) {
        (Ok(Some(observed)), Ok(authority)) => {
            if local.role != NodeRole::Child || local.state != NodeState::Active
                || observed.credential != *credential || !authority.same(main) {
                return Err(NodePairingActivationAuthorityError::RecoveryRequired);
            }
            Ok(local)
        },
        _ => Err(NodePairingActivationAuthorityError::RecoveryRequired),
    }
}

/// Whether one change was applied now.
pub open spec fn change_disposition(
    change: NodeManagerChangeView<NodeView>,
) -> NodePairingAuthorityDisposition {
    if change.event is Some {
        NodePairingAuthorityDisposition::Applied
    } else {
        NodePairingAuthorityDisposition::Replayed
    }
}

fn disposition_of(
    change: &NodeManagerChange<Node>,
) -> (disposition: NodePairingAuthorityDisposition)
    ensures
        disposition == change_disposition(change@),
{
    match change.event() {
        Some(_) => NodePairingAuthorityDisposition::Applied,
        None => NodePairingAuthorityDisposition::Replayed,
    }
}

/// What one committed activation is answered with.
pub open spec fn activation_concluded(
    change: Result<NodeManagerChangeView<NodeView>, NodeManagerError>,
    main: NodeView,
    credential: PeerCredential,
    observed: CredentialLookup,
    authority: Result<NodeView, NodeManagerError>,
) -> Result<NodePairingAuthorityReceiptView, NodePairingActivationAuthorityError> {
    match change {
        Err(error) => Err(authority_failure(error)),
        Ok(change) => if child_verified(change.value, main, credential, observed, authority) {
            Ok(
                NodePairingAuthorityReceiptView {
                    local: change.value,
                    disposition: change_disposition(change),
                },
            )
        } else {
            Err(NodePairingActivationAuthorityError::RecoveryRequired)
        },
    }
}

/// Answers one activation after its transaction and the observations that followed it.
pub fn conclude_activation(
    change: Result<NodeManagerChange<Node>, NodeManagerError>,
    main: &Node,
    credential: &PeerCredential,
    observed: CredentialLookup,
    authority: &Result<Node, NodeManagerError>,
) -> (receipt: Result<NodePairingAuthorityReceipt, NodePairingActivationAuthorityError>)
    ensures
        outcome(receipt) == activation_concluded(
            outcome(change),
            main@,
            *credential,
            observed,
            outcome(*authority),
        ),
{
    let change = match change {
        Ok(change) => change,
        Err(error) => {
            return Err(authority_manager_error(error));
        },
    };
    let disposition = disposition_of(&change);
    let local = verify_child(change.value, main, credential, observed, authority)?;
    Ok(NodePairingAuthorityReceipt { local, disposition })
}

// ---------------------------------------------------------------------------
// Restoration
// ---------------------------------------------------------------------------

/// What one restoration does next.
pub enum RestorationPlan {
    /// The local node is a main already: it is only verified.
    Verify,
    /// The credential is deleted together with the role change.
    Delete { write: PeerCredentialWrite },
}

/// What one [`RestorationPlan`] holds.
pub enum RestorationPlanView {
    Verify,
    Delete { write: PeerCredentialWriteView },
}

impl View for RestorationPlan {
    type V = RestorationPlanView;

    open spec fn view(&self) -> RestorationPlanView {
        match self {
            RestorationPlan::Verify => RestorationPlanView::Verify,
            RestorationPlan::Delete { write } => RestorationPlanView::Delete { write: write@ },
        }
    }
}

/// What restoring one paired main does: a main is only verified, a child must hold exactly the
/// credential that its activation created.
pub open spec fn restoration_planned(
    local: Result<StoredView<NodeView>, NodeManagerError>,
    request: NodePairedMainRestorationRequestView,
    stored: CredentialLookup,
    transaction_opened: bool,
) -> Result<RestorationPlanView, NodePairingActivationAuthorityError> {
    match local {
        Err(error) => Err(authority_failure(error)),
        Ok(local) => match expected_credential(
            local.value,
            request.main,
            request.main_certificate_sha256,
            request.credentials,
        ) {
            Err(error) => Err(error),
            Ok(expected) => match stored {
                Err(_) => Err(NodePairingActivationAuthorityError::Unavailable),
                Ok(stored) => if local.value.role == NodeRole::Main {
                    Ok(RestorationPlanView::Verify)
                } else {
                    match stored {
                        None => Err(NodePairingActivationAuthorityError::RecoveryRequired),
                        Some(stored) => if stored.credential != expected || stored.revision == 0 {
                            Err(NodePairingActivationAuthorityError::AuthorityConflict)
                        } else if !transaction_opened {
                            Err(NodePairingActivationAuthorityError::InvalidRequest)
                        } else {
                            Ok(
                                RestorationPlanView::Delete {
                                    write: credential_deletion(
                                        request.main_certificate_sha256,
                                        stored.revision,
                                    )->Ok_0,
                                },
                            )
                        },
                    }
                },
            },
        },
    }
}

/// Decides what one restoration does, from the local node, the stored credential of the main's
/// leaf and whether its transaction could be opened.
pub fn plan_restoration(
    local: &Result<Stored<Node>, NodeManagerError>,
    request: &NodePairedMainRestorationRequest,
    stored: CredentialLookup,
    transaction_opened: bool,
) -> (plan: Result<RestorationPlan, NodePairingActivationAuthorityError>)
    ensures
        outcome(plan) == restoration_planned(outcome(*local), request@, stored, transaction_opened),
{
    let local = match local {
        Ok(local) => local,
        Err(error) => {
            return Err(authority_manager_error(*error));
        },
    };
    let expected = credential(
        &local.value,
        &request.main,
        &request.main_certificate_sha256,
        &request.credentials,
    )?;
    let stored = match stored {
        Ok(stored) => stored,
        Err(_) => {
            return Err(NodePairingActivationAuthorityError::Unavailable);
        },
    };
    if local.value.role == NodeRole::Main {
        return Ok(RestorationPlan::Verify);
    }
    let stored = match stored {
        Some(stored) => stored,
        None => {
            return Err(NodePairingActivationAuthorityError::RecoveryRequired);
        },
    };
    if stored.credential != expected || stored.revision == 0 {
        return Err(NodePairingActivationAuthorityError::AuthorityConflict);
    }
    if !transaction_opened {
        return Err(NodePairingActivationAuthorityError::InvalidRequest);
    }
    match DatabasePeerCredentialStore::deleting_transaction(&request.main_certificate_sha256, stored.revision) {
        Ok(write) => Ok(RestorationPlan::Delete { write }),
        Err(_) => Err(NodePairingActivationAuthorityError::Unavailable),
    }
}

/// The local node is an active main, and neither the paired main nor its credential is left.
pub open spec fn main_verified(
    local: NodeView,
    observed: CredentialLookup,
    authority: Result<NodeView, NodeManagerError>,
) -> bool {
    &&& observed == Ok::<Option<VersionedPeerCredential>, AuthenticationStoreError>(None)
    &&& authority matches Err(NodeManagerError::Database(DatabaseError::NotFound { .. }))
    &&& local.role == NodeRole::Main
    &&& local.state == NodeState::Active
}

/// Requires restored main state and exact activation-owned authority absence.
pub fn verify_main(
    local: Node,
    observed: CredentialLookup,
    authority: &Result<Node, NodeManagerError>,
) -> (verified: Result<Node, NodePairingActivationAuthorityError>)
    ensures
        outcome(verified) == (if main_verified(local@, observed, outcome(*authority)) {
            Ok::<NodeView, NodePairingActivationAuthorityError>(local@)
        } else {
            Err(NodePairingActivationAuthorityError::RecoveryRequired)
        }),
{
    let credential_absent = match observed {
        Ok(observed) => observed.is_none(),
        Err(_) => {
            return Err(NodePairingActivationAuthorityError::RecoveryRequired);
        },
    };
    let authority_absent = match authority {
        Err(NodeManagerError::Database(DatabaseError::NotFound { .. })) => true,
        _ => false,
    };
    if local.role != NodeRole::Main || local.state != NodeState::Active || !credential_absent
        || !authority_absent {
        return Err(NodePairingActivationAuthorityError::RecoveryRequired);
    }
    Ok(local)
}

/// What one restoration is answered with; without a change the local node was a main already.
pub open spec fn restoration_concluded(
    local: NodeView,
    change: Option<Result<NodeManagerChangeView<NodeView>, NodeManagerError>>,
    observed: CredentialLookup,
    authority: Result<NodeView, NodeManagerError>,
) -> Result<NodePairingAuthorityReceiptView, NodePairingActivationAuthorityError> {
    match change {
        Some(Err(error)) => Err(authority_failure(error)),
        Some(Ok(change)) => if main_verified(change.value, observed, authority) {
            Ok(
                NodePairingAuthorityReceiptView {
                    local: change.value,
                    disposition: change_disposition(change),
                },
            )
        } else {
            Err(NodePairingActivationAuthorityError::RecoveryRequired)
        },
        None => if main_verified(local, observed, authority) {
            Ok(
                NodePairingAuthorityReceiptView {
                    local,
                    disposition: NodePairingAuthorityDisposition::Replayed,
                },
            )
        } else {
            Err(NodePairingActivationAuthorityError::RecoveryRequired)
        },
    }
}

/// The change by view, if there was one.
pub open spec fn change_view(
    change: Option<Result<NodeManagerChange<Node>, NodeManagerError>>,
) -> Option<Result<NodeManagerChangeView<NodeView>, NodeManagerError>> {
    match change {
        Some(change) => Some(outcome(change)),
        None => None,
    }
}

/// Answers one restoration after its transaction, if there was one, and the observations that
/// followed it.
pub fn conclude_restoration(
    local: Node,
    change: Option<Result<NodeManagerChange<Node>, NodeManagerError>>,
    observed: CredentialLookup,
    authority: &Result<Node, NodeManagerError>,
) -> (receipt: Result<NodePairingAuthorityReceipt, NodePairingActivationAuthorityError>)
    ensures
        outcome(receipt) == restoration_concluded(
            local@,
            change_view(change),
            observed,
            outcome(*authority),
        ),
{
    match change {
        None => {
            let local = verify_main(local, observed, authority)?;
            Ok(
                NodePairingAuthorityReceipt {
                    local,
                    disposition: NodePairingAuthorityDisposition::Replayed,
                },
            )
        },
        Some(Err(error)) => Err(authority_manager_error(error)),
        Some(Ok(change)) => {
            let disposition = disposition_of(&change);
            let local = verify_main(change.value, observed, authority)?;
            Ok(NodePairingAuthorityReceipt { local, disposition })
        },
    }
}

// ---------------------------------------------------------------------------
// Laws
// ---------------------------------------------------------------------------

/// A restoration deletes exactly the credential that the activation of the same package created:
/// what activation stored is recognized, at whatever revision, as long as the local node kept its
/// identity.
pub proof fn law_restoration_recognizes_activation(
    local: StoredView<NodeView>,
    child: StoredView<NodeView>,
    activation: NodePairedChildActivationRequestView,
    restoration: NodePairedMainRestorationRequestView,
    revision: u64,
)
    requires
        activation_planned(Ok(local), activation, true, Ok(None)) is Ok,
        child.value.identity == local.value.identity,
        child.value.role == NodeRole::Child,
        restoration.main == activation.main,
        restoration.main_certificate_sha256 == activation.main_certificate_sha256,
        restoration.credentials == activation.credentials,
        revision > 0,
    ensures
        ({
            let credential = activation_planned(Ok(local), activation, true, Ok(None))->Ok_0.credential;
            restoration_planned(
                Ok(child),
                restoration,
                Ok(Some(VersionedPeerCredential { credential, revision })),
                true,
            ) == Ok::<RestorationPlanView, NodePairingActivationAuthorityError>(
                RestorationPlanView::Delete {
                    write: credential_deletion(
                        restoration.main_certificate_sha256,
                        revision,
                    )->Ok_0,
                },
            )
        }),
{
}

/// An activation never overwrites another credential of the same leaf.
pub proof fn law_activation_never_overwrites(
    local: StoredView<NodeView>,
    request: NodePairedChildActivationRequestView,
    existing: VersionedPeerCredential,
)
    ensures
        activation_planned(Ok(local), request, true, Ok(Some(existing))) matches Ok(plan)
            ==> plan.write is None && plan.credential == existing.credential,
{
}

/// A receipt is only given for a verified authority: an activated child with its main, or a main
/// without one.
pub proof fn law_receipts_are_verified(
    local: NodeView,
    activated: NodeManagerChangeView<NodeView>,
    restored: NodeManagerChangeView<NodeView>,
    main: NodeView,
    credential: PeerCredential,
    observed: CredentialLookup,
    authority: Result<NodeView, NodeManagerError>,
)
    ensures
        activation_concluded(
            Ok(activated),
            main,
            credential,
            observed,
            authority,
        ) matches Ok(receipt) ==> child_verified(
            receipt.local,
            main,
            credential,
            observed,
            authority,
        ),
        restoration_concluded(local, Some(Ok(restored)), observed, authority) matches Ok(receipt)
            ==> main_verified(receipt.local, observed, authority),
        restoration_concluded(local, None, observed, authority) matches Ok(receipt)
            ==> main_verified(receipt.local, observed, authority),
{
}

} // verus!
