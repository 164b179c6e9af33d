//! Durable secret-free domain events and their delivery.

use vstd::prelude::*;

use crate::database::{
    DatabaseCommitDisposition, DatabaseError, DatabaseResult, DatabaseResultView, DatabaseRevision,
    DatabaseWriteResult, NodeManagerError, StoredView,
};
use crate::digest::{digest_of, sha256_digest};
use crate::entity::NodeRole;
use crate::identity::{
    law_digest_text, law_identity_text, HardwareObservationId,
    InterfaceError, ModelServiceId, NodeId, OperationId, Sha256Digest, TechnicalName,
    UnixMilliseconds,
};
use crate::node_manager::NodeManager;
use crate::sequence::{lemma_selected_step, listed, outcome, selected, views, Valued};
use crate::text::{append_be_bytes, be_bytes, is_lower_hex, lower_hex, text_is};

verus! {

/// One change that the node owner committed.
#[derive(Clone, Copy, Debug, PartialEq, Eq, Structural)]
pub enum NodeManagerEvent {
    NodeInitialized { node_id: NodeId },
    NodeEnrolled { node_id: NodeId },
    NodeActivated { node_id: NodeId },
    NodePaused { node_id: NodeId },
    NodeMarkedOffline { node_id: NodeId },
    NodeRemoved { node_id: NodeId },
    HardwareRecorded { observation_id: HardwareObservationId },
    ModelServiceCreated { service_id: ModelServiceId },
    ModelServiceUpdated { service_id: ModelServiceId },
    ModelServiceRemoved { service_id: ModelServiceId },
    OperationBegan { operation_id: OperationId },
    OperationStarted { operation_id: OperationId },
    OperationSucceeded { operation_id: OperationId },
    OperationFailed { operation_id: OperationId },
    OperationCancelled { operation_id: OperationId },
    LocalRoleChanged { node_id: NodeId, role: NodeRole },
}

impl View for NodeManagerEvent {
    type V = NodeManagerEvent;

    open spec fn view(&self) -> NodeManagerEvent {
        *self
    }
}

/// The stable kind of one local authority change.
pub open spec fn role_event_kind(role: NodeRole) -> Seq<char> {
    match role {
        NodeRole::Main => "local_became_main"@,
        NodeRole::Child => "local_became_child"@,
    }
}

/// Returns the stable event kind for one completed local authority change.
pub fn local_role_event_kind(role: NodeRole) -> (kind: &'static str)
    ensures
        kind@ == role_event_kind(role),
{
    match role {
        NodeRole::Main => "local_became_main",
        NodeRole::Child => "local_became_child",
    }
}

/// The stable kind of one event.
pub open spec fn event_kind(event: NodeManagerEvent) -> Seq<char> {
    match event {
        NodeManagerEvent::NodeInitialized { .. } => "node_initialized"@,
        NodeManagerEvent::NodeEnrolled { .. } => "node_enrolled"@,
        NodeManagerEvent::NodeActivated { .. } => "node_activated"@,
        NodeManagerEvent::NodePaused { .. } => "node_paused"@,
        NodeManagerEvent::NodeMarkedOffline { .. } => "node_marked_offline"@,
        NodeManagerEvent::NodeRemoved { .. } => "node_removed"@,
        NodeManagerEvent::HardwareRecorded { .. } => "hardware_recorded"@,
        NodeManagerEvent::ModelServiceCreated { .. } => "model_service_created"@,
        NodeManagerEvent::ModelServiceUpdated { .. } => "model_service_updated"@,
        NodeManagerEvent::ModelServiceRemoved { .. } => "model_service_removed"@,
        NodeManagerEvent::OperationBegan { .. } => "operation_began"@,
        NodeManagerEvent::OperationStarted { .. } => "operation_started"@,
        NodeManagerEvent::OperationSucceeded { .. } => "operation_succeeded"@,
        NodeManagerEvent::OperationFailed { .. } => "operation_failed"@,
        NodeManagerEvent::OperationCancelled { .. } => "operation_cancelled"@,
        NodeManagerEvent::LocalRoleChanged { role, .. } => role_event_kind(role),
    }
}

/// The identity of the entity that one event changed.
pub open spec fn event_entity(event: NodeManagerEvent) -> Seq<char> {
    match event {
        NodeManagerEvent::NodeInitialized { node_id } => node_id.text(),
        NodeManagerEvent::NodeEnrolled { node_id } => node_id.text(),
        NodeManagerEvent::NodeActivated { node_id } => node_id.text(),
        NodeManagerEvent::NodePaused { node_id } => node_id.text(),
        NodeManagerEvent::NodeMarkedOffline { node_id } => node_id.text(),
        NodeManagerEvent::NodeRemoved { node_id } => node_id.text(),
        NodeManagerEvent::HardwareRecorded { observation_id } => observation_id.text(),
        NodeManagerEvent::ModelServiceCreated { service_id } => service_id.text(),
        NodeManagerEvent::ModelServiceUpdated { service_id } => service_id.text(),
        NodeManagerEvent::ModelServiceRemoved { service_id } => service_id.text(),
        NodeManagerEvent::OperationBegan { operation_id } => operation_id.text(),
        NodeManagerEvent::OperationStarted { operation_id } => operation_id.text(),
        NodeManagerEvent::OperationSucceeded { operation_id } => operation_id.text(),
        NodeManagerEvent::OperationFailed { operation_id } => operation_id.text(),
        NodeManagerEvent::OperationCancelled { operation_id } => operation_id.text(),
        NodeManagerEvent::LocalRoleChanged { node_id, .. } => node_id.text(),
    }
}

/// Returns the stable event kind and changed entity identity.
pub fn event_identity(event: &NodeManagerEvent) -> (identity: (&'static str, String))
    ensures
        identity.0@ == event_kind(*event),
        identity.1@ == event_entity(*event),
{
    match event {
        NodeManagerEvent::NodeInitialized { node_id } => ("node_initialized", node_id.to_text()),
        NodeManagerEvent::NodeEnrolled { node_id } => ("node_enrolled", node_id.to_text()),
        NodeManagerEvent::NodeActivated { node_id } => ("node_activated", node_id.to_text()),
        NodeManagerEvent::NodePaused { node_id } => ("node_paused", node_id.to_text()),
        NodeManagerEvent::NodeMarkedOffline { node_id } => ("node_marked_offline", node_id.to_text()),
        NodeManagerEvent::NodeRemoved { node_id } => ("node_removed", node_id.to_text()),
        NodeManagerEvent::HardwareRecorded { observation_id } => ("hardware_recorded", observation_id.to_text()),
        NodeManagerEvent::ModelServiceCreated { service_id } => ("model_service_created", service_id.to_text()),
        NodeManagerEvent::ModelServiceUpdated { service_id } => ("model_service_updated", service_id.to_text()),
        NodeManagerEvent::ModelServiceRemoved { service_id } => ("model_service_removed", service_id.to_text()),
        NodeManagerEvent::OperationBegan { operation_id } => ("operation_began", operation_id.to_text()),
        NodeManagerEvent::OperationStarted { operation_id } => ("operation_started", operation_id.to_text()),
        NodeManagerEvent::OperationSucceeded { operation_id } => ("operation_succeeded", operation_id.to_text()),
        NodeManagerEvent::OperationFailed { operation_id } => ("operation_failed", operation_id.to_text()),
        NodeManagerEvent::OperationCancelled { operation_id } => ("operation_cancelled", operation_id.to_text()),
        NodeManagerEvent::LocalRoleChanged { node_id, role } => (
            local_role_event_kind(*role),
            node_id.to_text(),
        ),
    }
}

/// The closed set of event kinds.
pub open spec fn outbox_kind(value: Seq<char>) -> bool {
    ||| value == "node_initialized"@
    ||| value == "node_enrolled"@
    ||| value == "node_activated"@
    ||| value == "node_paused"@
    ||| value == "node_marked_offline"@
    ||| value == "node_removed"@
    ||| value == "local_became_main"@
    ||| value == "local_became_child"@
    ||| value == "hardware_recorded"@
    ||| value == "model_service_created"@
    ||| value == "model_service_updated"@
    ||| value == "model_service_removed"@
    ||| value == "operation_began"@
    ||| value == "operation_started"@
    ||| value == "operation_succeeded"@
    ||| value == "operation_failed"@
    ||| value == "operation_cancelled"@
}

/// Returns whether one event kind belongs to the closed outbox union.
pub fn is_outbox_kind(value: &str) -> (known: bool)
    ensures
        known == outbox_kind(value@),
{
    text_is(value, "node_initialized")
        || text_is(value, "node_enrolled")
        || text_is(value, "node_activated")
        || text_is(value, "node_paused")
        || text_is(value, "node_marked_offline")
        || text_is(value, "node_removed")
        || text_is(value, "local_became_main")
        || text_is(value, "local_became_child")
        || text_is(value, "hardware_recorded")
        || text_is(value, "model_service_created")
        || text_is(value, "model_service_updated")
        || text_is(value, "model_service_removed")
        || text_is(value, "operation_began")
        || text_is(value, "operation_started")
        || text_is(value, "operation_succeeded")
        || text_is(value, "operation_failed")
        || text_is(value, "operation_cancelled")
}

/// Identifies whether one durable domain event awaits or completed delivery.
#[derive(Clone, Copy, Debug, PartialEq, Eq, Structural)]
pub enum NodeOutboxState {
    Pending,
    Acknowledged,
}

/// The stored name of one outbox state.
pub open spec fn outbox_state_text(state: NodeOutboxState) -> Seq<char> {
    match state {
        NodeOutboxState::Pending => "pending"@,
        NodeOutboxState::Acknowledged => "acknowledged"@,
    }
}

/// Returns the private persistence name for one outbox state.
pub fn outbox_state_name(state: NodeOutboxState) -> (name: &'static str)
    ensures
        name@ == outbox_state_text(state),
{
    match state {
        NodeOutboxState::Pending => "pending",
        NodeOutboxState::Acknowledged => "acknowledged",
    }
}

/// The outbox state that one stored name stands for.
pub open spec fn outbox_state_of(value: Seq<char>) -> Result<NodeOutboxState, NodeManagerError> {
    if value == "pending"@ {
        Ok(NodeOutboxState::Pending)
    } else if value == "acknowledged"@ {
        Ok(NodeOutboxState::Acknowledged)
    } else {
        Err(NodeManagerError::CorruptState { reason: "outbox state is invalid" })
    }
}

/// Parses one private outbox-state persistence value.
pub fn outbox_state(value: &str) -> (state: Result<NodeOutboxState, NodeManagerError>)
    ensures
        state == outbox_state_of(value@),
{
    if text_is(value, "pending") {
        Ok(NodeOutboxState::Pending)
    } else if text_is(value, "acknowledged") {
        Ok(NodeOutboxState::Acknowledged)
    } else {
        Err(NodeManagerError::CorruptState { reason: "outbox state is invalid" })
    }
}

/// Stores one durable secret-free event projection.
#[derive(Debug)]
pub struct NodeOutboxEvent {
    pub(crate) event_id: Sha256Digest,
    pub(crate) kind: TechnicalName,
    pub(crate) entity_id: String,
    pub(crate) occurred_at: UnixMilliseconds,
    pub(crate) state: NodeOutboxState,
    pub(crate) acknowledged_at: Option<UnixMilliseconds>,
}

/// What one [`NodeOutboxEvent`] holds.
pub struct NodeOutboxEventView {
    pub event_id: Sha256Digest,
    pub kind: Seq<char>,
    pub entity_id: Seq<char>,
    pub occurred_at: UnixMilliseconds,
    pub state: NodeOutboxState,
    pub acknowledged_at: Option<UnixMilliseconds>,
}

impl View for NodeOutboxEvent {
    type V = NodeOutboxEventView;

    open(crate) spec fn view(&self) -> NodeOutboxEventView {
        NodeOutboxEventView {
            event_id: self.event_id,
            kind: self.kind@,
            entity_id: self.entity_id@,
            occurred_at: self.occurred_at,
            state: self.state,
            acknowledged_at: self.acknowledged_at,
        }
    }
}

impl Valued for NodeOutboxEvent {
    fn copy(&self) -> (copy: Self) {
        proof {
            use_type_invariant(self);
        }
        NodeOutboxEvent {
            event_id: self.event_id,
            kind: self.kind.copy(),
            entity_id: self.entity_id.copy(),
            occurred_at: self.occurred_at,
            state: self.state,
            acknowledged_at: self.acknowledged_at,
        }
    }

    fn same(&self, other: &Self) -> (same: bool) {
        self.event_id == other.event_id
            && self.kind.same(&other.kind)
            && self.entity_id.same(&other.entity_id)
            && self.occurred_at == other.occurred_at
            && self.state == other.state
            && self.acknowledged_at == other.acknowledged_at
    }
}

impl NodeOutboxEvent {
    #[verifier::type_invariant]
    pub(crate) open(crate) spec fn is_valid(self) -> bool {
        outbox_checked(self@) is Ok
    }

    /// Returns the deterministic event identity.
    pub fn event_id(&self) -> (value: Sha256Digest)
        ensures
            value == self@.event_id,
    {
        self.event_id
    }

    /// Returns the stable event kind.
    pub fn kind(&self) -> (value: &TechnicalName)
        ensures
            value@ == self@.kind,
    {
        &self.kind
    }

    /// Returns the exact changed entity identity.
    pub fn entity_id(&self) -> (value: &str)
        ensures
            value@ == self@.entity_id,
    {
        self.entity_id.as_str()
    }

    /// Returns when the domain transition occurred.
    pub fn occurred_at(&self) -> (value: UnixMilliseconds)
        ensures
            value == self@.occurred_at,
    {
        self.occurred_at
    }

    /// Returns the durable delivery state.
    pub fn state(&self) -> (value: NodeOutboxState)
        ensures
            value == self@.state,
    {
        self.state
    }

    /// Returns when delivery was acknowledged.
    pub fn acknowledged_at(&self) -> (value: Option<UnixMilliseconds>)
        ensures
            value == self@.acknowledged_at,
    {
        self.acknowledged_at
    }
}

/// One coherent event: a known kind, an entity identity, and an acknowledgement exactly when it
/// was delivered, not before it occurred.
pub open spec fn outbox_valid(event: NodeOutboxEventView) -> bool {
    &&& lower_hex(event.entity_id, 32)
    &&& outbox_kind(event.kind)
    &&& match event.state {
        NodeOutboxState::Pending => event.acknowledged_at is None,
        NodeOutboxState::Acknowledged => event.acknowledged_at matches Some(at)
            && event.occurred_at.value <= at.value,
    }
}

/// What one coherent or incoherent event gives.
pub open spec fn outbox_checked(event: NodeOutboxEventView) -> Result<
    NodeOutboxEventView,
    NodeManagerError,
> {
    if outbox_valid(event) {
        Ok(event)
    } else {
        Err(NodeManagerError::CorruptState { reason: "outbox event is incomplete or inconsistent" })
    }
}

/// The acknowledged form of one event.
pub open spec fn acknowledged_form(
    event: NodeOutboxEventView,
    acknowledged_at: UnixMilliseconds,
) -> NodeOutboxEventView {
    NodeOutboxEventView {
        state: NodeOutboxState::Acknowledged,
        acknowledged_at: Some(acknowledged_at),
        ..event
    }
}

impl NodeOutboxEvent {
    /// Creates one coherent pending or acknowledged outbox event.
    pub fn new(
        event_id: Sha256Digest,
        kind: TechnicalName,
        entity_id: String,
        occurred_at: UnixMilliseconds,
        state: NodeOutboxState,
        acknowledged_at: Option<UnixMilliseconds>,
    ) -> (result: Result<NodeOutboxEvent, NodeManagerError>)
        ensures
            outcome(result) == outbox_checked(
                NodeOutboxEventView {
                    event_id,
                    kind: kind@,
                    entity_id: entity_id@,
                    occurred_at,
                    state,
                    acknowledged_at,
                },
            ),
    {
        let delivery_is_coherent = match (state, acknowledged_at) {
            (NodeOutboxState::Pending, None) => true,
            (NodeOutboxState::Acknowledged, Some(at)) => at.value >= occurred_at.value,
            _ => false,
        };
        if !is_lower_hex(entity_id.as_str(), 32) || !is_outbox_kind(kind.as_str())
            || !delivery_is_coherent {
            return Err(
                NodeManagerError::CorruptState {
                    reason: "outbox event is incomplete or inconsistent",
                },
            );
        }
        Ok(NodeOutboxEvent { event_id, kind, entity_id, occurred_at, state, acknowledged_at })
    }

    /// Returns one acknowledged snapshot while preserving event identity.
    pub fn acknowledged(&self, acknowledged_at: UnixMilliseconds) -> (result: Result<
        NodeOutboxEvent,
        NodeManagerError,
    >)
        ensures
            outcome(result) == outbox_checked(acknowledged_form(self@, acknowledged_at)),
    {
        NodeOutboxEvent::new(
            self.event_id,
            self.kind.copy(),
            self.entity_id.clone(),
            self.occurred_at,
            NodeOutboxState::Acknowledged,
            Some(acknowledged_at),
        )
    }
}

/// Returns one outbox snapshot with its optimistic database revision.
#[derive(Debug)]
pub struct VersionedNodeOutboxEvent {
    pub event: NodeOutboxEvent,
    pub revision: u64,
}

/// What one [`VersionedNodeOutboxEvent`] holds.
pub struct VersionedNodeOutboxEventView {
    pub event: NodeOutboxEventView,
    pub revision: u64,
}

impl View for VersionedNodeOutboxEvent {
    type V = VersionedNodeOutboxEventView;

    open spec fn view(&self) -> VersionedNodeOutboxEventView {
        VersionedNodeOutboxEventView {
            event: self.event@,
            revision: self.revision,
        }
    }
}

impl Valued for VersionedNodeOutboxEvent {
    fn copy(&self) -> (copy: Self) {
        VersionedNodeOutboxEvent {
            event: self.event.copy(),
            revision: self.revision,
        }
    }

    fn same(&self, other: &Self) -> (same: bool) {
        self.event.same(&other.event)
            && self.revision == other.revision
    }
}

impl VersionedNodeOutboxEvent {
    /// Returns the durable event snapshot.
    pub fn event(&self) -> (value: &NodeOutboxEvent)
        ensures
            value@ == self@.event,
    {
        &self.event
    }

    /// Returns the revision required by acknowledgment.
    pub fn revision(&self) -> (value: u64)
        ensures
            value == self@.revision,
    {
        self.revision
    }
}

impl VersionedNodeOutboxEvent {
    /// Creates one exact versioned outbox result.
    pub fn new(event: NodeOutboxEvent, revision: u64) -> (versioned: Self)
        ensures
            versioned@ == (VersionedNodeOutboxEventView { event: event@, revision }),
    {
        VersionedNodeOutboxEvent { event, revision }
    }
}

/// Stores the private persistence projection of one outbox event.
#[derive(Debug)]
pub struct NodeOutboxDatabaseRecord {
    pub event_id: String,
    pub kind: String,
    pub entity_id: String,
    pub occurred_at_unix_milliseconds: u64,
    pub state: String,
    pub acknowledged_at_unix_milliseconds: Option<u64>,
}

/// What one [`NodeOutboxDatabaseRecord`] holds.
pub struct NodeOutboxDatabaseRecordView {
    pub event_id: Seq<char>,
    pub kind: Seq<char>,
    pub entity_id: Seq<char>,
    pub occurred_at_unix_milliseconds: u64,
    pub state: Seq<char>,
    pub acknowledged_at_unix_milliseconds: Option<u64>,
}

impl View for NodeOutboxDatabaseRecord {
    type V = NodeOutboxDatabaseRecordView;

    open spec fn view(&self) -> NodeOutboxDatabaseRecordView {
        NodeOutboxDatabaseRecordView {
            event_id: self.event_id@,
            kind: self.kind@,
            entity_id: self.entity_id@,
            occurred_at_unix_milliseconds: self.occurred_at_unix_milliseconds,
            state: self.state@,
            acknowledged_at_unix_milliseconds: self.acknowledged_at_unix_milliseconds,
        }
    }
}

impl Valued for NodeOutboxDatabaseRecord {
    fn copy(&self) -> (copy: Self) {
        NodeOutboxDatabaseRecord {
            event_id: self.event_id.copy(),
            kind: self.kind.copy(),
            entity_id: self.entity_id.copy(),
            occurred_at_unix_milliseconds: self.occurred_at_unix_milliseconds,
            state: self.state.copy(),
            acknowledged_at_unix_milliseconds: self.acknowledged_at_unix_milliseconds,
        }
    }

    fn same(&self, other: &Self) -> (same: bool) {
        self.event_id.same(&other.event_id)
            && self.kind.same(&other.kind)
            && self.entity_id.same(&other.entity_id)
            && self.occurred_at_unix_milliseconds == other.occurred_at_unix_milliseconds
            && self.state.same(&other.state)
            && self.acknowledged_at_unix_milliseconds == other.acknowledged_at_unix_milliseconds
    }
}

/// The length of one text and then the text itself.
pub open spec fn outbox_field(value: Seq<char>) -> Seq<u8> {
    be_bytes(vstd::utf8::encode_utf8(value).len(), 8) + vstd::utf8::encode_utf8(value)
}

/// The bytes from which one event identity is derived.
pub open spec fn outbox_message(idempotency_key: Seq<char>, event: NodeManagerEvent) -> Seq<u8> {
    outbox_field("li_node_outbox_v1"@) + outbox_field(idempotency_key) + outbox_field(
        event_kind(event),
    ) + outbox_field(event_entity(event))
}

fn append_outbox_field(message: &mut Vec<u8>, value: &str)
    ensures
        final(message)@ == old(message)@ + outbox_field(value@),
{
    let bytes = value.as_bytes();
    let length: usize = bytes.len();
    append_be_bytes(message, length as u64, 8);
    message.extend_from_slice(bytes);
    assert(message@ =~= old(message)@ + outbox_field(value@));
}

/// The pending event of one committed change.
pub open spec fn pending_event(
    idempotency_key: Seq<char>,
    event: NodeManagerEvent,
    occurred_at: UnixMilliseconds,
) -> NodeOutboxEventView {
    NodeOutboxEventView {
        event_id: digest_of(outbox_message(idempotency_key, event)),
        kind: event_kind(event),
        entity_id: event_entity(event),
        occurred_at,
        state: NodeOutboxState::Pending,
        acknowledged_at: None,
    }
}

/// Every event has a known kind and an entity identity.
pub proof fn law_event_is_known(event: NodeManagerEvent)
    ensures
        outbox_kind(event_kind(event)),
        event_kind(event).len() > 0,
        lower_hex(event_entity(event), 32),
{
    reveal_strlit("node_initialized");
    reveal_strlit("node_enrolled");
    reveal_strlit("node_activated");
    reveal_strlit("node_paused");
    reveal_strlit("node_marked_offline");
    reveal_strlit("node_removed");
    reveal_strlit("local_became_main");
    reveal_strlit("local_became_child");
    reveal_strlit("hardware_recorded");
    reveal_strlit("model_service_created");
    reveal_strlit("model_service_updated");
    reveal_strlit("model_service_removed");
    reveal_strlit("operation_began");
    reveal_strlit("operation_started");
    reveal_strlit("operation_succeeded");
    reveal_strlit("operation_failed");
    reveal_strlit("operation_cancelled");
    match event {
        NodeManagerEvent::NodeInitialized { node_id } => {
            law_identity_text(node_id);
        },
        NodeManagerEvent::NodeEnrolled { node_id } => {
            law_identity_text(node_id);
        },
        NodeManagerEvent::NodeActivated { node_id } => {
            law_identity_text(node_id);
        },
        NodeManagerEvent::NodePaused { node_id } => {
            law_identity_text(node_id);
        },
        NodeManagerEvent::NodeMarkedOffline { node_id } => {
            law_identity_text(node_id);
        },
        NodeManagerEvent::NodeRemoved { node_id } => {
            law_identity_text(node_id);
        },
        NodeManagerEvent::HardwareRecorded { observation_id } => {
            law_identity_text(observation_id);
        },
        NodeManagerEvent::ModelServiceCreated { service_id } => {
            law_identity_text(service_id);
        },
        NodeManagerEvent::ModelServiceUpdated { service_id } => {
            law_identity_text(service_id);
        },
        NodeManagerEvent::ModelServiceRemoved { service_id } => {
            law_identity_text(service_id);
        },
        NodeManagerEvent::OperationBegan { operation_id } => {
            law_identity_text(operation_id);
        },
        NodeManagerEvent::OperationStarted { operation_id } => {
            law_identity_text(operation_id);
        },
        NodeManagerEvent::OperationSucceeded { operation_id } => {
            law_identity_text(operation_id);
        },
        NodeManagerEvent::OperationFailed { operation_id } => {
            law_identity_text(operation_id);
        },
        NodeManagerEvent::OperationCancelled { operation_id } => {
            law_identity_text(operation_id);
        },
        NodeManagerEvent::LocalRoleChanged { node_id, .. } => {
            law_identity_text(node_id);
        },
    }
}

/// Creates one deterministic pending event from a committed domain event intent.
pub fn pending_outbox_event(
    idempotency_key: &str,
    event: &NodeManagerEvent,
    occurred_at: UnixMilliseconds,
) -> (result: Result<NodeOutboxEvent, NodeManagerError>)
    ensures
        outcome(result) == Ok::<NodeOutboxEventView, NodeManagerError>(
            pending_event(idempotency_key@, *event, occurred_at),
        ),
{
    let (kind, entity_id) = event_identity(event);
    let mut message: Vec<u8> = Vec::new();
    append_outbox_field(&mut message, "li_node_outbox_v1");
    append_outbox_field(&mut message, idempotency_key);
    append_outbox_field(&mut message, kind);
    append_outbox_field(&mut message, entity_id.as_str());
    proof {
        assert(message@ =~= outbox_message(idempotency_key@, *event));
        law_event_is_known(*event);
    }
    let event_id = sha256_digest(message.as_slice());
    let kind = match TechnicalName::parse(kind) {
        Ok(kind) => kind,
        Err(error) => {
            return Err(NodeManagerError::Interface(error));
        },
    };
    NodeOutboxEvent::new(event_id, kind, entity_id, occurred_at, NodeOutboxState::Pending, None)
}

/// The stored form of one event.
pub open spec fn outbox_record_of(event: NodeOutboxEventView) -> NodeOutboxDatabaseRecordView {
    NodeOutboxDatabaseRecordView {
        event_id: event.event_id.text(),
        kind: event.kind,
        entity_id: event.entity_id,
        occurred_at_unix_milliseconds: event.occurred_at.value,
        state: outbox_state_text(event.state),
        acknowledged_at_unix_milliseconds: match event.acknowledged_at {
            Some(at) => Some(at.value),
            None => None,
        },
    }
}

/// Projects one outbox event into private persistence.
pub fn outbox_record(event: &NodeOutboxEvent) -> (record: NodeOutboxDatabaseRecord)
    ensures
        record@ == outbox_record_of(event@),
{
    NodeOutboxDatabaseRecord {
        event_id: event.event_id.to_text(),
        kind: event.kind.as_str().to_owned(),
        entity_id: event.entity_id.clone(),
        occurred_at_unix_milliseconds: event.occurred_at.value,
        state: outbox_state_name(event.state).to_owned(),
        acknowledged_at_unix_milliseconds: match event.acknowledged_at {
            Some(at) => Some(at.value),
            None => None,
        },
    }
}

/// What reading one stored event gives, with the first failure in field order.
pub open spec fn outbox_from(record: NodeOutboxDatabaseRecordView) -> Result<
    NodeOutboxEventView,
    NodeManagerError,
> {
    if !lower_hex(record.event_id, 64) {
        Err(NodeManagerError::Interface(InterfaceError::InvalidIdentity))
    } else if record.kind.len() == 0 {
        Err(NodeManagerError::Interface(InterfaceError::InvalidName))
    } else {
        match outbox_state_of(record.state) {
            Err(error) => Err(error),
            Ok(state) => outbox_checked(
                NodeOutboxEventView {
                    event_id: Sha256Digest::of_text(record.event_id),
                    kind: record.kind,
                    entity_id: record.entity_id,
                    occurred_at: UnixMilliseconds { value: record.occurred_at_unix_milliseconds },
                    state,
                    acknowledged_at: match record.acknowledged_at_unix_milliseconds {
                        Some(value) => Some(UnixMilliseconds { value }),
                        None => None,
                    },
                },
            ),
        }
    }
}

/// Reconstructs one validated outbox event from private persistence.
pub fn outbox_from_record(record: NodeOutboxDatabaseRecord) -> (result: Result<
    NodeOutboxEvent,
    NodeManagerError,
>)
    ensures
        outcome(result) == outbox_from(record@),
{
    let event_id = match Sha256Digest::parse(record.event_id.as_str()) {
        Ok(digest) => digest,
        Err(error) => {
            return Err(NodeManagerError::Interface(error));
        },
    };
    let kind = match TechnicalName::parse(record.kind.as_str()) {
        Ok(kind) => kind,
        Err(error) => {
            return Err(NodeManagerError::Interface(error));
        },
    };
    let state = outbox_state(record.state.as_str())?;
    let acknowledged_at = match record.acknowledged_at_unix_milliseconds {
        Some(value) => Some(UnixMilliseconds::new(value)),
        None => None,
    };
    NodeOutboxEvent::new(
        event_id,
        kind,
        record.entity_id,
        UnixMilliseconds::new(record.occurred_at_unix_milliseconds),
        state,
        acknowledged_at,
    )
}

/// Reading the stored form of one coherent event gives the event back.
pub proof fn law_outbox_round_trip(event: NodeOutboxEventView)
    requires
        outbox_valid(event),
        event.kind.len() > 0,
    ensures
        outbox_from(outbox_record_of(event)) == Ok::<NodeOutboxEventView, NodeManagerError>(event),
{
    law_digest_text(event.event_id);
    reveal_strlit("pending");
    reveal_strlit("acknowledged");
    assert("pending"@.len() == 7);
    assert("acknowledged"@.len() == 12);
}

/// Acknowledging keeps the event's identity, kind, entity and time.
pub proof fn law_acknowledgement_keeps_identity(
    event: NodeOutboxEventView,
    acknowledged_at: UnixMilliseconds,
)
    requires
        outbox_valid(event),
    ensures
        outbox_checked(acknowledged_form(event, acknowledged_at)) is Ok <==> event.occurred_at.value
            <= acknowledged_at.value,
        outbox_checked(acknowledged_form(event, acknowledged_at)) matches Ok(delivered) ==> {
            &&& delivered.event_id == event.event_id
            &&& delivered.kind == event.kind
            &&& delivered.entity_id == event.entity_id
            &&& delivered.occurred_at == event.occurred_at
            &&& delivered.state == NodeOutboxState::Acknowledged
        },
{
}

// ---------------------------------------------------------------------------
// Delivery
// ---------------------------------------------------------------------------

/// What one outbox lookup means.
pub open spec fn outbox_read(
    result: Result<DatabaseResultView<NodeOutboxDatabaseRecordView>, DatabaseError>,
) -> Result<VersionedNodeOutboxEventView, NodeManagerError> {
    match result {
        Err(error) => Err(NodeManagerError::Database(error)),
        Ok(DatabaseResultView::Records(_)) => Err(
            NodeManagerError::CorruptState { reason: "single-outbox query returned a collection" },
        ),
        Ok(DatabaseResultView::Record(stored)) => match outbox_from(stored.value) {
            Err(error) => Err(error),
            Ok(event) => Ok(VersionedNodeOutboxEventView { event, revision: stored.revision }),
        },
    }
}

impl NodeManager {
    /// Returns one exact durable outbox event from the answer to its lookup.
    pub fn outbox_event(
        result: Result<DatabaseResult<NodeOutboxDatabaseRecord>, DatabaseError>,
    ) -> (event: Result<
        VersionedNodeOutboxEvent,
        NodeManagerError,
    >)
        ensures
            outcome(event) == outbox_read(outcome(result)),
    {
        match result {
            Err(error) => Err(NodeManagerError::Database(error)),
            Ok(DatabaseResult::Records(_)) => Err(
                NodeManagerError::CorruptState { reason: "single-outbox query returned a collection" },
            ),
            Ok(DatabaseResult::Record(stored)) => {
                let revision = stored.revision;
                let event = outbox_from_record(stored.value)?;
                Ok(VersionedNodeOutboxEvent::new(event, revision))
            },
        }
    }
}

/// The events of one collection from one position on, or the first failure.
pub open spec fn outbox_listed(
    stored: Seq<StoredView<NodeOutboxDatabaseRecordView>>,
    at: int,
    events: Seq<VersionedNodeOutboxEventView>,
) -> Result<Seq<VersionedNodeOutboxEventView>, NodeManagerError>
    decreases stored.len() - at,
{
    if at < 0 || at >= stored.len() {
        Ok(events)
    } else {
        match outbox_from(stored[at].value) {
            Err(error) => Err(error),
            Ok(event) => outbox_listed(
                stored,
                at + 1,
                events.push(
                    VersionedNodeOutboxEventView { event, revision: stored[at].revision },
                ),
            ),
        }
    }
}

/// What one outbox listing means.
pub open spec fn outbox_all(
    result: Result<DatabaseResultView<NodeOutboxDatabaseRecordView>, DatabaseError>,
) -> Result<Seq<VersionedNodeOutboxEventView>, NodeManagerError> {
    match result {
        Err(error) => Err(NodeManagerError::Database(error)),
        Ok(DatabaseResultView::Record(_)) => Err(
            NodeManagerError::CorruptState { reason: "outbox collection query returned one record" },
        ),
        Ok(DatabaseResultView::Records(stored)) => outbox_listed(stored, 0, Seq::empty()),
    }
}

impl NodeManager {
    /// Returns every durable outbox event in deterministic identity order.
    #[verifier::loop_isolation(false)]
    pub fn outbox_events(
        result: Result<DatabaseResult<NodeOutboxDatabaseRecord>, DatabaseError>,
    ) -> (events: Result<
        Vec<VersionedNodeOutboxEvent>,
        NodeManagerError,
    >)
        ensures
            listed(events) == outbox_all(outcome(result)),
    {
        match result {
            Err(error) => Err(NodeManagerError::Database(error)),
            Ok(DatabaseResult::Record(_)) => Err(
                NodeManagerError::CorruptState { reason: "outbox collection query returned one record" },
            ),
            Ok(DatabaseResult::Records(stored)) => {
                let ghost all = views(stored@);
                let mut rest = stored;
                let mut events: Vec<VersionedNodeOutboxEvent> = Vec::new();
                proof {
                    assert(views(events@) =~= Seq::<VersionedNodeOutboxEventView>::empty());
                }
                let ghost mut done: int = 0;
                while rest.len() > 0
                    invariant
                        0 <= done,
                        rest@.len() + done == all.len(),
                        forall|k: int| 0 <= k < rest@.len() ==> (#[trigger] rest@[k])@ == all[done + k],
                        outbox_listed(all, done, views(events@)) == outbox_listed(
                            all,
                            0,
                            Seq::empty(),
                        ),
                    decreases rest@.len(),
                {
                    let ghost before = views(events@);
                    assert(rest@[0]@ == all[done]);
                    let item = rest.remove(0);
                    let revision = item.revision;
                    let event = outbox_from_record(item.value)?;
                    let versioned = VersionedNodeOutboxEvent::new(event, revision);
                    events.push(versioned);
                    proof {
                        assert(views(events@) =~= before.push(versioned@));
                        done = done + 1;
                    }
                }
                Ok(events)
            },
        }
    }
}

/// Events that still require delivery.
pub open spec fn outbox_pending(events: Seq<VersionedNodeOutboxEventView>) -> Seq<
    VersionedNodeOutboxEventView,
> {
    selected(
        events,
        |event: VersionedNodeOutboxEventView| event.event.state == NodeOutboxState::Pending,
    )
}

impl NodeManager {
    /// Returns only events that still require delivery acknowledgement.
    #[verifier::loop_isolation(false)]
    pub fn pending_outbox_events(events: &Vec<VersionedNodeOutboxEvent>) -> (pending: Vec<
        VersionedNodeOutboxEvent,
    >)
        ensures
            views(pending@) == outbox_pending(views(events@)),
    {
        let ghost all = views(events@);
        let ghost keep = |event: VersionedNodeOutboxEventView|
            event.event.state == NodeOutboxState::Pending;
        let mut pending: Vec<VersionedNodeOutboxEvent> = Vec::new();
        let mut i: usize = 0;
        proof {
            assert(views(pending@) =~= selected(all.take(0), keep));
        }
        while i < events.len()
            invariant
                i <= events@.len(),
                views(pending@) == selected(all.take(i as int), keep),
            decreases events@.len() - i,
        {
            let event = &events[i];
            let ghost before = views(pending@);
            proof {
                assert(all[i as int] == event@);
                lemma_selected_step(all, keep, i as int);
            }
            if event.event.state == NodeOutboxState::Pending {
                pending.push(event.copy());
                assert(views(pending@) =~= before.push(event@));
            }
            i += 1;
        }
        proof {
            assert(all.take(all.len() as int) =~= all);
        }
        pending
    }
}

/// What one acknowledgement does: nothing when the event was delivered before, else one write.
#[derive(Debug)]
pub enum OutboxStep {
    Observed(VersionedNodeOutboxEvent),
    Save { event: NodeOutboxEvent, expected: DatabaseRevision },
}

/// What one [`OutboxStep`] holds.
pub enum OutboxStepView {
    Observed(VersionedNodeOutboxEventView),
    Save { event: NodeOutboxEventView, expected: DatabaseRevision },
}

impl View for OutboxStep {
    type V = OutboxStepView;

    open spec fn view(&self) -> OutboxStepView {
        match self {
            OutboxStep::Observed(event) => OutboxStepView::Observed(event@),
            OutboxStep::Save { event, expected } => OutboxStepView::Save {
                event: event@,
                expected: *expected,
            },
        }
    }
}

/// The step of one acknowledgement.
pub open spec fn acknowledgement_step(
    current: VersionedNodeOutboxEventView,
    expected_revision: u64,
    acknowledged_at: UnixMilliseconds,
) -> Result<OutboxStepView, NodeManagerError> {
    if current.event.state == NodeOutboxState::Acknowledged {
        Ok(OutboxStepView::Observed(current))
    } else {
        match outbox_checked(acknowledged_form(current.event, acknowledged_at)) {
            Err(error) => Err(error),
            Ok(event) => Ok(
                OutboxStepView::Save { event, expected: DatabaseRevision::Exact(expected_revision) },
            ),
        }
    }
}

impl NodeManager {
    /// Decides the acknowledgement of one delivered event without generating another outbox event.
    pub fn acknowledge_outbox_event(
        current: VersionedNodeOutboxEvent,
        expected_revision: u64,
        acknowledged_at: UnixMilliseconds,
    ) -> (step: Result<OutboxStep, NodeManagerError>)
        ensures
            outcome(step) == acknowledgement_step(current@, expected_revision, acknowledged_at),
    {
        if current.event.state == NodeOutboxState::Acknowledged {
            return Ok(OutboxStep::Observed(current));
        }
        let event = current.event.acknowledged(acknowledged_at)?;
        Ok(OutboxStep::Save { event, expected: DatabaseRevision::Exact(expected_revision) })
    }
}

/// Returns one acknowledged event under the revision that its write committed.
pub fn outbox_acknowledged(
    event: NodeOutboxEvent,
    result: Result<DatabaseWriteResult, DatabaseError>,
) -> (acknowledged: Result<VersionedNodeOutboxEvent, NodeManagerError>)
    ensures
        outcome(acknowledged) == match outcome(result) {
            Ok(write) => Ok(
                VersionedNodeOutboxEventView { event: event@, revision: write.commit.revision },
            ),
            Err(error) => Err(NodeManagerError::Database(error)),
        },
{
    match result {
        Ok(write) => Ok(VersionedNodeOutboxEvent::new(event, write.commit.revision)),
        Err(error) => Err(NodeManagerError::Database(error)),
    }
}

/// Acknowledging an event twice changes it once: the second time it is only observed.
pub proof fn law_acknowledgement_is_idempotent(
    event: NodeOutboxEventView,
    revision: u64,
    expected_revision: u64,
    acknowledged_at: UnixMilliseconds,
    later: UnixMilliseconds,
)
    ensures
        acknowledgement_step(
            VersionedNodeOutboxEventView {
                event: acknowledged_form(event, acknowledged_at),
                revision,
            },
            expected_revision,
            later,
        ) == Ok::<OutboxStepView, NodeManagerError>(
            OutboxStepView::Observed(
                VersionedNodeOutboxEventView {
                    event: acknowledged_form(event, acknowledged_at),
                    revision,
                },
            ),
        ),
{
}

/// Returns one domain event only when this command created the durable commit.
pub fn event_if_applied(
    disposition: DatabaseCommitDisposition,
    event: NodeManagerEvent,
) -> (applied: Option<NodeManagerEvent>)
    ensures
        applied == applied_event(disposition, event),
{
    match disposition {
        DatabaseCommitDisposition::Applied => Some(event),
        DatabaseCommitDisposition::Replayed => None,
    }
}

/// An event is reported exactly once: when its commit was applied.
pub open spec fn applied_event(
    disposition: DatabaseCommitDisposition,
    event: NodeManagerEvent,
) -> Option<NodeManagerEvent> {
    match disposition {
        DatabaseCommitDisposition::Applied => Some(event),
        DatabaseCommitDisposition::Replayed => None,
    }
}

} // verus!
