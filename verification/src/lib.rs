//! The node manager: the rules by which one machine takes part in a fleet of inference nodes.
//!
//! The library decides; whoever embeds it talks to the database, the network and the clock. What
//! was read is handed in as plain values or through a port, and what is to be done next is handed
//! out. Every function states what it returns for every input, and Verus proves it; only of what a
//! system clock says is nothing stated.
//!
//! - Values: [`text`], [`sequence`], [`identity`], [`digest`], [`pem`], [`path`], [`entity`],
//!   [`database`].
//! - Nodes, services and operations: [`node_manager`], [`node_role`], [`node_outbox`],
//!   [`node_manager_laws`].
//! - Pairing: [`node_pairing_api`], [`node_pairing_transport`], [`node_pairing_tls`],
//!   [`node_pairing_enrollment`], [`node_pairing_activation_authority`],
//!   [`node_peer_credential_database`].
//! - Model lifecycles: [`node_model_contract`], [`node_model_journal`], [`node_model_world`],
//!   [`node_model_rules`], [`node_model_groups`], [`node_model_execution`],
//!   [`node_model_compensation`], [`node_model_planning`], [`node_model_coordinator`],
//!   [`node_model_laws`], [`node_model_prepared`], [`node_model_ports`].
//! - What model commands bring about, as their calls show it: [`node_model_traces`],
//!   [`node_model_plan_outcomes`], [`node_model_update_outcomes`], [`node_model_journal_outcomes`],
//!   [`node_model_outcomes`], [`node_model_placement_outcomes`],
//!   [`node_model_replacement_outcomes`], [`node_model_removal_outcomes`],
//!   [`node_model_compensation_outcomes`], [`node_model_command_outcomes`],
//!   [`node_model_listing_outcomes`].
//! - The private control surface: [`node_private_api`], [`node_private_local_clock`],
//!   [`node_private_local_listener`], [`node_private_remote_client`].

pub mod database;
pub mod digest;
pub mod entity;
pub mod identity;
pub mod node_manager;
pub mod node_manager_laws;
pub mod node_model_command_outcomes;
pub mod node_model_compensation;
pub mod node_model_compensation_outcomes;
pub mod node_model_contract;
pub mod node_model_coordinator;
pub mod node_model_execution;
pub mod node_model_groups;
pub mod node_model_journal;
pub mod node_model_journal_outcomes;
pub mod node_model_laws;
pub mod node_model_listing_outcomes;
pub mod node_model_outcomes;
pub mod node_model_placement_outcomes;
pub mod node_model_plan_outcomes;
pub mod node_model_planning;
pub mod node_model_ports;
pub mod node_model_prepared;
pub mod node_model_removal_outcomes;
pub mod node_model_replacement_outcomes;
pub mod node_model_rules;
pub mod node_model_traces;
pub mod node_model_update_outcomes;
pub mod node_model_world;
pub mod node_outbox;
pub mod node_pairing_activation_authority;
pub mod node_pairing_api;
pub mod node_pairing_enrollment;
pub mod node_pairing_tls;
pub mod node_pairing_transport;
pub mod node_peer_credential_database;
pub mod node_private_api;
pub mod node_private_local_clock;
pub mod node_private_local_listener;
pub mod node_private_remote_client;
pub mod node_role;
pub mod path;
pub mod pem;
pub mod sequence;
pub mod text;

pub use crate::database::NodeManagerError;
pub use crate::node_manager::{NodeManager, NodeTransition};
pub use crate::node_model_contract::{
    NodeModelAction, NodeModelCommandIdentity, NodeModelCommandResult, NodeModelCommandSummary,
    NodeModelError, NodeModelInstallGroup, NodeModelInstallRequest, NodeModelJournal,
    NodeModelJournalState, NodeModelLogProjection, NodeModelLogSummary, NodeModelRemovalRetention,
    NodeModelRemovalSelection, NodeModelRemoveRequest, NodeModelRetainedGroup,
    NodeModelRetainedNode, NodeModelRollbackGroupPreview, NodeModelRollbackPreview,
    NodeModelRollbackRuntime, NodeModelRuntimeDisposition, NodeModelRuntimeLogBatch,
    NodeModelRuntimeLogRequest, NodeModelRuntimeReceipt, NodeModelServiceProjection,
    NodeModelServiceSummary, NodeModelUpdateDisposition, NodeModelUpdateRequest,
    NodeModelUpdateSummary, VersionedNodeModelJournal, VersionedNodeModelOperation,
    VersionedNodeModelService,
};
pub use crate::node_model_coordinator::NodeModelCoordinator;
pub use crate::node_model_journal::DatabaseNodeModelJournalStore;
pub use crate::node_model_ports::{NativeNodeModelPlacementRequestProvider, SystemNodeModelClock};
pub use crate::node_model_world::{
    NodeModelClock, NodeModelHardwareProvider, NodeModelJournalStore, NodeModelPlacementPort,
    NodeModelPlacementRequestProvider, NodeModelRuntimePort, NodeModelStatePort,
    OperationCompletion,
};
pub use crate::node_outbox::{NodeOutboxEvent, NodeOutboxState, VersionedNodeOutboxEvent};
pub use crate::node_pairing_activation_authority::{
    NodePairedChildActivationRequest, NodePairedMainRestorationRequest,
    NodePairingActivationAuthorityError, NodePairingAuthorityDisposition,
    NodePairingAuthorityReceipt,
};
pub use crate::node_pairing_api::{
    NodePairingApiError, NodePairingApproveRequest, NodePairingChallenge, NodePairingCredentials,
    NodePairingEnrollRequest, NodePairingEnrollment, NodePairingInvitation, NodePairingMode,
    NodePairingOpenRequest, NodePairingState, NodePairingStatus,
};
pub use crate::node_pairing_tls::{
    NodePairingCancellation, NodePairingCancellationPort, NodePairingTlsError,
    NodePairingTlsFileSet,
};
pub use crate::node_pairing_transport::{
    node_pairing_candidate_offer_identity, node_pairing_candidate_offer_transcript,
    NodePairingApiPort, NodePairingCandidateEnrollment, NodePairingCandidateOffer,
    NodePairingCandidateOfferPort, NodePairingDocumentEndpoint, NodePairingLocalNodePort,
    NodePairingTransportError, NodePairingTransportRequest, NodePairingTransportResponse,
};
pub use crate::node_peer_credential_database::{
    CoreNodePrincipalResolver, DatabasePeerCredentialChange, DatabasePeerCredentialStore,
};
pub use crate::node_private_api::{
    NodePrivateAction, NodePrivateApi, NodePrivateApiError, NodePrivateAuthorizationProvider,
    NodePrivateRequest, NodeRuntimeArtifactsFinalizationReceipt, NodeUninstallBeginReceipt,
    NodeUninstallCancelReceipt, NodeUninstallInventory, NodeUninstallModelTarget,
    NodeUninstallRequest, NodeUninstallSessionDisposition,
};
pub use crate::node_private_local_clock::{NodePrivateLocalClock, SystemLocalClock};
pub use crate::node_private_local_listener::{
    read_node_private_local_frame, write_node_private_local_frame,
    ExactNodePrivateLocalPeerIdentity, NodePrivateLocalConnectionError,
    NodePrivateLocalConnectionHandler, NodePrivateLocalDocumentEndpoint,
    NodePrivateLocalDocumentError, NodePrivateLocalFrameError, NodePrivateLocalIoError,
    NodePrivateLocalListener, NodePrivateLocalPeerError, NodePrivateLocalPeerIdentityProvider,
    NodePrivateLocalServerConfiguration, NodePrivateLocalServerConfigurationError,
    NodePrivateLocalServerError, NodePrivateLocalStream,
};
pub use crate::node_private_remote_client::{
    NodePrivateRemoteClientError, NodePrivateRemoteClientFileSet,
};
pub use crate::path::NodePrivateUnixPathError;
