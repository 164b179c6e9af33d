//! The node owner's decisions over what the database holds: which change one command makes, and
//! what its commit means.

use vstd::prelude::*;

use crate::database::{
    DatabaseCollection, DatabaseCommit, DatabaseCommitDisposition, DatabaseCommitView,
    DatabaseError, DatabaseResult, DatabaseResultView, DatabaseRevision, DatabaseTransactionResult,
    DatabaseTransactionResultView, NodeManagerError, RecordIdentifier, Stored, StoredView,
};
use crate::entity::{
    entity_operation, model_service, FailureDescription, FailureDescriptionView,
    HardwareObservation, HardwareObservationView, ModelService, ModelServiceDesiredState,
    ModelServiceView, Node, NodeIdentity, NodeRole, NodeState, NodeView, Operation, OperationKind,
    OperationState, OperationTarget, OperationView,
};
use crate::identity::{
    clone_ids, contains_id, entity_timestamps, EntityTimestamps, ModelServiceId, NodeId,
    OperationId, PlacementGroupId, UnixMilliseconds,
};
use crate::node_model_world::{OperationCompletion, OperationCompletionView};
use crate::node_outbox::{
    applied_event, event_if_applied, pending_event, pending_outbox_event, NodeManagerEvent,
    NodeOutboxEvent, NodeOutboxEventView,
};
use crate::sequence::{found, lemma_selected_step, listed, outcome, selected, viewed, views, Valued};
use crate::text::{text_bytes, byte_length, text_is};

verus! {

// ---------------------------------------------------------------------------
// Changes and transactions
// ---------------------------------------------------------------------------

/// One value with its revision and the event of the commit that created it.
#[derive(Debug)]
pub struct NodeManagerChange<T> {
    pub value: T,
    pub revision: u64,
    pub event: Option<NodeManagerEvent>,
}

/// What one [`NodeManagerChange`] holds.
pub struct NodeManagerChangeView<V> {
    pub value: V,
    pub revision: u64,
    pub event: Option<NodeManagerEvent>,
}

impl<T: View> View for NodeManagerChange<T> {
    type V = NodeManagerChangeView<T::V>;

    open spec fn view(&self) -> NodeManagerChangeView<T::V> {
        NodeManagerChangeView {
            value: self.value@,
            revision: self.revision,
            event: self.event,
        }
    }
}

/// A value that was only observed.
pub open spec fn observed_change<V>(value: V, revision: u64) -> NodeManagerChangeView<V> {
    NodeManagerChangeView { value, revision, event: None }
}

impl<T: View> NodeManagerChange<T> {
    /// Creates one change that was only observed.
    pub fn observed(value: T, revision: u64) -> (change: Self)
        ensures
            change@ == observed_change(value@, revision),
    {
        NodeManagerChange { value, revision, event: None }
    }

    /// Creates one committed change.
    pub fn committed(value: T, revision: u64, event: Option<NodeManagerEvent>) -> (change: Self)
        ensures
            change@ == (NodeManagerChangeView { value: value@, revision, event }),
    {
        NodeManagerChange { value, revision, event }
    }

    /// Returns the value.
    pub fn value(&self) -> (value: &T)
        ensures
            value@ == self@.value,
    {
        &self.value
    }

    /// Returns the revision that the next change must expect.
    pub fn revision(&self) -> (revision: u64)
        ensures
            revision == self@.revision,
    {
        self.revision
    }

    /// Returns the event when this command created the commit.
    pub fn event(&self) -> (event: Option<NodeManagerEvent>)
        ensures
            event == self@.event,
    {
        self.event
    }
}

/// One record change of an atomic transaction.
#[derive(Debug)]
pub enum NodeWrite {
    SaveNode { node: Node, expected: DatabaseRevision },
    DeleteNode { node_id: NodeId, expected: DatabaseRevision },
    SaveHardware { observation: HardwareObservation, expected: DatabaseRevision },
    SaveService { service: ModelService, expected: DatabaseRevision },
    SaveOperation { saved_operation: Operation, expected: DatabaseRevision },
    SaveOutbox { outbox: NodeOutboxEvent, expected: DatabaseRevision },
}

/// What one [`NodeWrite`] holds.
pub enum NodeWriteView {
    SaveNode { node: NodeView, expected: DatabaseRevision },
    DeleteNode { node_id: NodeId, expected: DatabaseRevision },
    SaveHardware { observation: HardwareObservationView, expected: DatabaseRevision },
    SaveService { service: ModelServiceView, expected: DatabaseRevision },
    SaveOperation { saved_operation: OperationView, expected: DatabaseRevision },
    SaveOutbox { outbox: NodeOutboxEventView, expected: DatabaseRevision },
}

impl View for NodeWrite {
    type V = NodeWriteView;

    open spec fn view(&self) -> NodeWriteView {
        match self {
            NodeWrite::SaveNode { node, expected } => NodeWriteView::SaveNode {
                node: node@,
                expected: *expected,
            },
            NodeWrite::DeleteNode { node_id, expected } => NodeWriteView::DeleteNode {
                node_id: *node_id,
                expected: *expected,
            },
            NodeWrite::SaveHardware { observation, expected } => NodeWriteView::SaveHardware {
                observation: observation@,
                expected: *expected,
            },
            NodeWrite::SaveService { service, expected } => NodeWriteView::SaveService {
                service: service@,
                expected: *expected,
            },
            NodeWrite::SaveOperation { saved_operation, expected } => {
                NodeWriteView::SaveOperation {
                    saved_operation: saved_operation@,
                    expected: *expected,
                }
            },
            NodeWrite::SaveOutbox { outbox, expected } => NodeWriteView::SaveOutbox {
                outbox: outbox@,
                expected: *expected,
            },
        }
    }
}

/// One change that waits for its commit: the new value, its event and the writes, in order.
#[derive(Debug)]
pub struct NodeCommit<T> {
    pub value: T,
    pub event: NodeManagerEvent,
    pub writes: Vec<NodeWrite>,
}

/// What one [`NodeCommit`] holds.
pub struct NodeCommitView<V> {
    pub value: V,
    pub event: NodeManagerEvent,
    pub writes: Seq<NodeWriteView>,
}

impl<T: View> View for NodeCommit<T> {
    type V = NodeCommitView<T::V>;

    open spec fn view(&self) -> NodeCommitView<T::V> {
        NodeCommitView { value: self.value@, event: self.event, writes: views(self.writes@) }
    }
}

/// What one command does: nothing because its result is already there, or one atomic commit.
#[derive(Debug)]
pub enum NodeStep<T> {
    Observed(NodeManagerChange<T>),
    Commit(NodeCommit<T>),
}

/// What one [`NodeStep`] holds.
pub enum NodeStepView<V> {
    Observed(NodeManagerChangeView<V>),
    Commit(NodeCommitView<V>),
}

impl<T: View> View for NodeStep<T> {
    type V = NodeStepView<T::V>;

    open spec fn view(&self) -> NodeStepView<T::V> {
        match self {
            NodeStep::Observed(change) => NodeStepView::Observed(change@),
            NodeStep::Commit(commit) => NodeStepView::Commit(commit@),
        }
    }
}

// ---------------------------------------------------------------------------
// Queries
// ---------------------------------------------------------------------------

/// The record that one single-record query returned.
pub open spec fn one_record<V>(
    result: Result<DatabaseResultView<V>, DatabaseError>,
    reason: &'static str,
) -> Result<StoredView<V>, NodeManagerError> {
    match result {
        Err(error) => Err(NodeManagerError::Database(error)),
        Ok(DatabaseResultView::Record(stored)) => Ok(stored),
        Ok(DatabaseResultView::Records(_)) => Err(NodeManagerError::CorruptState { reason }),
    }
}

/// Returns the record that one single-record query returned.
pub fn single_record<R: View>(
    result: Result<DatabaseResult<R>, DatabaseError>,
    reason: &'static str,
) -> (record: Result<Stored<R>, NodeManagerError>)
    ensures
        outcome(record) == one_record(outcome(result), reason),
{
    match result {
        Err(error) => Err(NodeManagerError::Database(error)),
        Ok(DatabaseResult::Record(stored)) => Ok(stored),
        Ok(DatabaseResult::Records(_)) => Err(NodeManagerError::CorruptState { reason }),
    }
}

/// The record that one single-record query returned, none when it is missing.
pub open spec fn optional_record<V>(
    result: Result<DatabaseResultView<V>, DatabaseError>,
    reason: &'static str,
) -> Result<Option<StoredView<V>>, NodeManagerError> {
    match result {
        Err(DatabaseError::NotFound { .. }) => Ok(None),
        Err(error) => Err(NodeManagerError::Database(error)),
        Ok(DatabaseResultView::Record(stored)) => Ok(Some(stored)),
        Ok(DatabaseResultView::Records(_)) => Err(NodeManagerError::CorruptState { reason }),
    }
}

/// Returns one record when present while preserving every non-not-found database failure.
pub fn record_if_available<R: View>(
    result: Result<DatabaseResult<R>, DatabaseError>,
    reason: &'static str,
) -> (record: Result<Option<Stored<R>>, NodeManagerError>)
    ensures
        found(record) == optional_record(outcome(result), reason),
{
    match result {
        Err(error) => match error {
            DatabaseError::NotFound { .. } => Ok(None),
            _ => Err(NodeManagerError::Database(error)),
        },
        Ok(DatabaseResult::Record(stored)) => Ok(Some(stored)),
        Ok(DatabaseResult::Records(_)) => Err(NodeManagerError::CorruptState { reason }),
    }
}

/// The records that one collection query returned.
pub open spec fn all_records<V>(
    result: Result<DatabaseResultView<V>, DatabaseError>,
    reason: &'static str,
) -> Result<Seq<StoredView<V>>, NodeManagerError> {
    match result {
        Err(error) => Err(NodeManagerError::Database(error)),
        Ok(DatabaseResultView::Record(_)) => Err(NodeManagerError::CorruptState { reason }),
        Ok(DatabaseResultView::Records(stored)) => Ok(stored),
    }
}

/// Returns the records that one collection query returned.
pub fn collection_records<R: View>(
    result: Result<DatabaseResult<R>, DatabaseError>,
    reason: &'static str,
) -> (records: Result<Vec<Stored<R>>, NodeManagerError>)
    ensures
        listed(records) == all_records(outcome(result), reason),
{
    match result {
        Err(error) => Err(NodeManagerError::Database(error)),
        Ok(DatabaseResult::Record(_)) => Err(NodeManagerError::CorruptState { reason }),
        Ok(DatabaseResult::Records(stored)) => Ok(stored),
    }
}

/// The values of one list of records.
pub open spec fn record_values<V>(stored: Seq<StoredView<V>>) -> Seq<V> {
    Seq::new(stored.len(), |i: int| stored[i].value)
}

/// Returns the values of one list of records.
#[verifier::loop_isolation(false)]
pub fn values_of<R: View>(stored: Vec<Stored<R>>) -> (values: Vec<R>)
    ensures
        views(values@) == record_values(views(stored@)),
{
    let ghost all = views(stored@);
    let mut rest = stored;
    let mut values: Vec<R> = Vec::new();
    while rest.len() > 0
        invariant
            rest@.len() + values@.len() == all.len(),
            forall|k: int|
                0 <= k < rest@.len() ==> (#[trigger] rest@[k])@ == all[values@.len() + k],
            forall|k: int| 0 <= k < values@.len() ==> (#[trigger] values@[k])@ == all[k].value,
        decreases rest@.len(),
    {
        assert(rest@[0]@ == all[values@.len() as int]);
        let item = rest.remove(0);
        values.push(item.value);
    }
    assert(views(values@) =~= record_values(all));
    values
}

/// Nodes that may act as a main authority.
pub open spec fn active_mains(stored: Seq<StoredView<NodeView>>) -> Seq<StoredView<NodeView>> {
    selected(stored, |node: StoredView<NodeView>| node.value.is_active_main())
}

/// The one active main; a missing or split authority is refused.
pub open spec fn sole_active_main(stored: Seq<StoredView<NodeView>>) -> Result<
    StoredView<NodeView>,
    NodeManagerError,
> {
    if active_mains(stored).len() == 1 {
        Ok(active_mains(stored)[0])
    } else {
        Err(
            NodeManagerError::InvalidLocalRoleTransition {
                reason: "topology must contain exactly one active main",
            },
        )
    }
}

/// Returns the one active main and rejects missing or split authority.
#[verifier::loop_isolation(false)]
pub fn active_main_with_revision(stored: &Vec<Stored<Node>>) -> (main: Result<
    Stored<Node>,
    NodeManagerError,
>)
    ensures
        outcome(main) == sole_active_main(views(stored@)),
{
    let ghost all = views(stored@);
    let ghost keep = |node: StoredView<NodeView>| node.value.is_active_main();
    let mut main: Option<Stored<Node>> = None;
    let mut count: usize = 0;
    let mut i: usize = 0;
    proof {
        assert(selected(all.take(0), keep).len() == 0);
    }
    while i < stored.len()
        invariant
            i <= stored@.len(),
            count == selected(all.take(i as int), keep).len(),
            count <= i,
            main is Some <==> count > 0,
            main matches Some(first) ==> first@ == selected(all.take(i as int), keep)[0],
        decreases stored@.len() - i,
    {
        let node = &stored[i];
        proof {
            assert(all[i as int] == node@);
            lemma_selected_step(all, keep, i as int);
        }
        if node.value.is_active_main() {
            if count == 0 {
                main = Some(Stored { value: node.value.copy(), revision: node.revision });
            }
            count += 1;
        }
        i += 1;
    }
    proof {
        assert(all.take(all.len() as int) =~= all);
    }
    if count == 1 {
        match main {
            Some(main) => {
                return Ok(main);
            },
            None => {},
        }
    }
    Err(
        NodeManagerError::InvalidLocalRoleTransition {
            reason: "topology must contain exactly one active main",
        },
    )
}

// ---------------------------------------------------------------------------
// Names and tables
// ---------------------------------------------------------------------------

/// Selects one main-owned child-node lifecycle transition.
#[derive(Clone, Copy, Debug, PartialEq, Eq, Structural)]
pub enum NodeTransition {
    Activate,
    Pause,
    Resume,
    MarkOffline,
    Remove,
}

/// The state that one transition produces.
pub open spec fn transition_target(transition: NodeTransition) -> NodeState {
    match transition {
        NodeTransition::Activate => NodeState::Active,
        NodeTransition::Resume => NodeState::Active,
        NodeTransition::Pause => NodeState::Draining,
        NodeTransition::MarkOffline => NodeState::Offline,
        NodeTransition::Remove => NodeState::Removed,
    }
}

/// Returns the stable state produced by one idempotent node transition.
pub fn transition_node_state(transition: NodeTransition) -> (state: NodeState)
    ensures
        state == transition_target(transition),
{
    match transition {
        NodeTransition::Activate | NodeTransition::Resume => NodeState::Active,
        NodeTransition::Pause => NodeState::Draining,
        NodeTransition::MarkOffline => NodeState::Offline,
        NodeTransition::Remove => NodeState::Removed,
    }
}

/// The transitions that one state allows; a node that is already there may stay.
pub open spec fn transition_allowed(current: NodeState, transition: NodeTransition) -> bool {
    ||| current == transition_target(transition)
    ||| current == NodeState::Pending && (transition == NodeTransition::Activate || transition
        == NodeTransition::Remove)
    ||| current == NodeState::Active && (transition == NodeTransition::Pause || transition
        == NodeTransition::MarkOffline)
    ||| current == NodeState::Draining && (transition == NodeTransition::Resume || transition
        == NodeTransition::MarkOffline || transition == NodeTransition::Remove)
    ||| current == NodeState::Offline && (transition == NodeTransition::Resume || transition
        == NodeTransition::Remove)
}

/// The stable name of one transition.
pub open spec fn transition_text(transition: NodeTransition) -> &'static str {
    match transition {
        NodeTransition::Activate => "activate",
        NodeTransition::Pause => "pause",
        NodeTransition::Resume => "resume",
        NodeTransition::MarkOffline => "mark offline",
        NodeTransition::Remove => "remove",
    }
}

/// Returns the stable action name for one node transition.
pub fn node_transition_name(transition: NodeTransition) -> (name: &'static str)
    ensures
        name == transition_text(transition),
{
    match transition {
        NodeTransition::Activate => "activate",
        NodeTransition::Pause => "pause",
        NodeTransition::Resume => "resume",
        NodeTransition::MarkOffline => "mark offline",
        NodeTransition::Remove => "remove",
    }
}

/// The stable name of one node state.
pub open spec fn node_state_text(state: NodeState) -> &'static str {
    match state {
        NodeState::Pending => "pending",
        NodeState::Active => "active",
        NodeState::Draining => "draining",
        NodeState::Offline => "offline",
        NodeState::Removed => "removed",
    }
}

/// Returns the stable public state name for one node snapshot.
pub fn node_state_name(state: NodeState) -> (name: &'static str)
    ensures
        name == node_state_text(state),
{
    match state {
        NodeState::Pending => "pending",
        NodeState::Active => "active",
        NodeState::Draining => "draining",
        NodeState::Offline => "offline",
        NodeState::Removed => "removed",
    }
}

/// The stable name of one operation state.
pub open spec fn operation_state_text(state: OperationState) -> &'static str {
    match state {
        OperationState::Pending => "pending",
        OperationState::Running => "running",
        OperationState::Succeeded => "succeeded",
        OperationState::Failed => "failed",
        OperationState::Cancelled => "cancelled",
    }
}

/// Returns the stable interface name for one operation state.
pub fn operation_state_name(state: OperationState) -> (name: &'static str)
    ensures
        name == operation_state_text(state),
{
    match state {
        OperationState::Pending => "pending",
        OperationState::Running => "running",
        OperationState::Succeeded => "succeeded",
        OperationState::Failed => "failed",
        OperationState::Cancelled => "cancelled",
    }
}

/// The state of one child after a transition.
pub open spec fn child_state(
    node_id: NodeId,
    current: NodeState,
    transition: NodeTransition,
) -> Result<NodeState, NodeManagerError> {
    if transition_allowed(current, transition) {
        Ok(transition_target(transition))
    } else {
        Err(
            NodeManagerError::InvalidNodeTransition {
                node_id,
                current: node_state_text(current),
                action: transition_text(transition),
            },
        )
    }
}

/// Returns the exact target state allowed by one child lifecycle action.
pub fn desired_node_state(
    node_id: &NodeId,
    current: NodeState,
    transition: NodeTransition,
) -> (desired: Result<NodeState, NodeManagerError>)
    ensures
        desired == child_state(*node_id, current, transition),
{
    match (current, transition) {
        (NodeState::Pending, NodeTransition::Activate)
        | (NodeState::Draining, NodeTransition::Resume)
        | (NodeState::Offline, NodeTransition::Resume) => Ok(NodeState::Active),
        (NodeState::Active, NodeTransition::Pause) => Ok(NodeState::Draining),
        (NodeState::Active, NodeTransition::MarkOffline)
        | (NodeState::Draining, NodeTransition::MarkOffline) => Ok(NodeState::Offline),
        (NodeState::Pending, NodeTransition::Remove)
        | (NodeState::Draining, NodeTransition::Remove)
        | (NodeState::Offline, NodeTransition::Remove) => Ok(NodeState::Removed),
        _ => {
            if current == transition_node_state(transition) {
                Ok(current)
            } else {
                Err(
                    NodeManagerError::InvalidNodeTransition {
                        node_id: *node_id,
                        current: node_state_name(current),
                        action: node_transition_name(transition),
                    },
                )
            }
        },
    }
}

/// A removed node stays removed.
pub proof fn law_removed_node_is_final(node_id: NodeId, transition: NodeTransition)
    ensures
        child_state(node_id, NodeState::Removed, transition) matches Ok(state) ==> state
            == NodeState::Removed,
{
}

/// Repeating a transition that succeeded changes nothing more.
pub proof fn law_transition_is_idempotent(
    node_id: NodeId,
    current: NodeState,
    transition: NodeTransition,
)
    ensures
        child_state(node_id, current, transition) matches Ok(state) ==> child_state(
            node_id,
            state,
            transition,
        ) == Ok::<NodeState, NodeManagerError>(state),
{
}

/// The event of one child transition.
pub open spec fn transition_event(node_id: NodeId, transition: NodeTransition) -> NodeManagerEvent {
    match transition {
        NodeTransition::Activate => NodeManagerEvent::NodeActivated { node_id },
        NodeTransition::Resume => NodeManagerEvent::NodeActivated { node_id },
        NodeTransition::Pause => NodeManagerEvent::NodePaused { node_id },
        NodeTransition::MarkOffline => NodeManagerEvent::NodeMarkedOffline { node_id },
        NodeTransition::Remove => NodeManagerEvent::NodeRemoved { node_id },
    }
}

/// Returns the committed event corresponding to one child lifecycle action.
pub fn node_transition_event(
    node_id: NodeId,
    transition: NodeTransition,
) -> (event: NodeManagerEvent)
    ensures
        event == transition_event(node_id, transition),
{
    match transition {
        NodeTransition::Activate | NodeTransition::Resume => {
            NodeManagerEvent::NodeActivated { node_id }
        },
        NodeTransition::Pause => NodeManagerEvent::NodePaused { node_id },
        NodeTransition::MarkOffline => NodeManagerEvent::NodeMarkedOffline { node_id },
        NodeTransition::Remove => NodeManagerEvent::NodeRemoved { node_id },
    }
}

// ---------------------------------------------------------------------------
// Commit receipts
// ---------------------------------------------------------------------------

/// The entity revision of one entity and outbox transaction.
pub open spec fn entity_revision(
    commits: Seq<DatabaseCommitView>,
    collection: DatabaseCollection,
    identifier: Seq<char>,
) -> Result<u64, NodeManagerError> {
    if commits.len() == 2 && commits[0].collection == collection && commits[0].identifier
        == identifier && commits[1].collection == DatabaseCollection::Outbox {
        Ok(commits[0].revision)
    } else {
        Err(
            NodeManagerError::CorruptState {
                reason: "entity/outbox transaction commit is inconsistent",
            },
        )
    }
}

/// Returns one exact entity revision from a two-record entity/outbox transaction.
pub fn transaction_entity_revision(
    commits: &Vec<DatabaseCommit>,
    collection: DatabaseCollection,
    identifier: &str,
) -> (revision: Result<u64, NodeManagerError>)
    ensures
        revision == entity_revision(views(commits@), collection, identifier@),
{
    if commits.len() != 2 || commits[0].collection != collection || !text_is(
        commits[0].identifier.as_str(),
        identifier,
    ) || commits[1].collection != DatabaseCollection::Outbox {
        return Err(
            NodeManagerError::CorruptState {
                reason: "entity/outbox transaction commit is inconsistent",
            },
        );
    }
    Ok(commits[0].revision)
}

/// The node revision of one hardware, node and outbox transaction.
pub open spec fn hardware_revision(
    commits: Seq<DatabaseCommitView>,
    node_id: NodeId,
) -> Result<u64, NodeManagerError> {
    if commits.len() == 3 && commits[0].collection == DatabaseCollection::HardwareObservations
        && commits[0].identifier == node_id.text() && commits[1].collection
        == DatabaseCollection::Nodes && commits[1].identifier == node_id.text()
        && commits[2].collection == DatabaseCollection::Outbox {
        Ok(commits[1].revision)
    } else {
        Err(
            NodeManagerError::CorruptState { reason: "hardware transaction commit is inconsistent" },
        )
    }
}

/// Returns the node revision from one exact hardware/node/outbox transaction.
pub fn hardware_transaction_node_revision(
    commits: &Vec<DatabaseCommit>,
    node_id: &NodeId,
) -> (revision: Result<u64, NodeManagerError>)
    ensures
        revision == hardware_revision(views(commits@), *node_id),
{
    let identifier = node_id.to_text();
    if commits.len() != 3 || commits[0].collection != DatabaseCollection::HardwareObservations
        || !text_is(commits[0].identifier.as_str(), identifier.as_str()) || commits[1].collection
        != DatabaseCollection::Nodes || !text_is(
        commits[1].identifier.as_str(),
        identifier.as_str(),
    ) || commits[2].collection != DatabaseCollection::Outbox {
        return Err(
            NodeManagerError::CorruptState { reason: "hardware transaction commit is inconsistent" },
        );
    }
    Ok(commits[1].revision)
}

/// What one answered transaction means, given the revision that its receipt names.
pub open spec fn committed_change<V>(
    commit: NodeCommitView<V>,
    disposition: DatabaseCommitDisposition,
    revision: Result<u64, NodeManagerError>,
) -> Result<NodeManagerChangeView<V>, NodeManagerError> {
    match revision {
        Err(error) => Err(error),
        Ok(revision) => Ok(
            NodeManagerChangeView {
                value: commit.value,
                revision,
                event: applied_event(disposition, commit.event),
            },
        ),
    }
}

/// What one answered entity and outbox transaction means.
pub open spec fn entity_committed<V>(
    commit: NodeCommitView<V>,
    collection: DatabaseCollection,
    identifier: Seq<char>,
    result: Result<DatabaseTransactionResultView, DatabaseError>,
) -> Result<NodeManagerChangeView<V>, NodeManagerError> {
    match result {
        Err(error) => Err(NodeManagerError::Database(error)),
        Ok(result) => committed_change(
            commit,
            result.disposition,
            entity_revision(result.commits, collection, identifier),
        ),
    }
}

fn commit_entity<T: View>(
    commit: NodeCommit<T>,
    collection: DatabaseCollection,
    identifier: &str,
    result: Result<DatabaseTransactionResult, DatabaseError>,
) -> (change: Result<NodeManagerChange<T>, NodeManagerError>)
    ensures
        outcome(change) == entity_committed(commit@, collection, identifier@, outcome(result)),
{
    match result {
        Err(error) => Err(NodeManagerError::Database(error)),
        Ok(result) => {
            let revision = transaction_entity_revision(&result.commits, collection, identifier)?;
            Ok(
                NodeManagerChange::committed(
                    commit.value,
                    revision,
                    event_if_applied(result.disposition, commit.event),
                ),
            )
        },
    }
}

// ---------------------------------------------------------------------------
// Commits
// ---------------------------------------------------------------------------

/// The outbox write of one event.
pub open spec fn outbox_write(
    idempotency_key: Seq<char>,
    event: NodeManagerEvent,
    occurred_at: UnixMilliseconds,
) -> NodeWriteView {
    NodeWriteView::SaveOutbox {
        outbox: pending_event(idempotency_key, event, occurred_at),
        expected: DatabaseRevision::Missing,
    }
}

/// The commit of one node with its event.
pub open spec fn node_commit(
    idempotency_key: Seq<char>,
    node: NodeView,
    expected: DatabaseRevision,
    event: NodeManagerEvent,
) -> NodeCommitView<NodeView> {
    NodeCommitView {
        value: node,
        event,
        writes: seq![
            NodeWriteView::SaveNode { node, expected },
            outbox_write(idempotency_key, event, node.timestamps.updated_at),
        ],
    }
}

/// Prepares one node and its event for an atomic commit.
pub fn save_node(
    idempotency_key: &str,
    node: Node,
    expected: DatabaseRevision,
    event: NodeManagerEvent,
) -> (commit: Result<NodeCommit<Node>, NodeManagerError>)
    ensures
        outcome(commit) == Ok::<NodeCommitView<NodeView>, NodeManagerError>(
            node_commit(idempotency_key@, node@, expected, event),
        ),
{
    let outbox = pending_outbox_event(idempotency_key, &event, node.timestamps.updated_at)?;
    let mut writes: Vec<NodeWrite> = Vec::new();
    writes.push(NodeWrite::SaveNode { node: node.copy(), expected });
    writes.push(NodeWrite::SaveOutbox { outbox, expected: DatabaseRevision::Missing });
    assert(views(writes@) =~= node_commit(idempotency_key@, node@, expected, event).writes);
    Ok(NodeCommit { value: node, event, writes })
}

/// The commit of one model service with its event.
pub open spec fn service_commit(
    idempotency_key: Seq<char>,
    service: ModelServiceView,
    expected: DatabaseRevision,
    event: NodeManagerEvent,
) -> NodeCommitView<ModelServiceView> {
    NodeCommitView {
        value: service,
        event,
        writes: seq![
            NodeWriteView::SaveService { service, expected },
            outbox_write(idempotency_key, event, service.timestamps.updated_at),
        ],
    }
}

/// Prepares one model service and its event for an atomic commit.
pub fn save_model_service(
    idempotency_key: &str,
    service: ModelService,
    expected: DatabaseRevision,
    event: NodeManagerEvent,
) -> (commit: Result<NodeCommit<ModelService>, NodeManagerError>)
    ensures
        outcome(commit) == Ok::<NodeCommitView<ModelServiceView>, NodeManagerError>(
            service_commit(idempotency_key@, service@, expected, event),
        ),
{
    let outbox = pending_outbox_event(idempotency_key, &event, service.timestamps.updated_at)?;
    let mut writes: Vec<NodeWrite> = Vec::new();
    writes.push(NodeWrite::SaveService { service: service.copy(), expected });
    writes.push(NodeWrite::SaveOutbox { outbox, expected: DatabaseRevision::Missing });
    assert(views(writes@) =~= service_commit(idempotency_key@, service@, expected, event).writes);
    Ok(NodeCommit { value: service, event, writes })
}

/// The commit of one operation with its event.
pub open spec fn operation_commit(
    idempotency_key: Seq<char>,
    operation: OperationView,
    expected: DatabaseRevision,
    event: NodeManagerEvent,
) -> NodeCommitView<OperationView> {
    NodeCommitView {
        value: operation,
        event,
        writes: seq![
            NodeWriteView::SaveOperation { saved_operation: operation, expected },
            outbox_write(idempotency_key, event, operation.timestamps.updated_at),
        ],
    }
}

/// Prepares one operation and its event for an atomic commit.
pub fn save_operation(
    idempotency_key: &str,
    operation: Operation,
    expected: DatabaseRevision,
    event: NodeManagerEvent,
) -> (commit: Result<NodeCommit<Operation>, NodeManagerError>)
    ensures
        outcome(commit) == Ok::<NodeCommitView<OperationView>, NodeManagerError>(
            operation_commit(idempotency_key@, operation@, expected, event),
        ),
{
    let outbox = pending_outbox_event(idempotency_key, &event, operation.timestamps.updated_at)?;
    let mut writes: Vec<NodeWrite> = Vec::new();
    writes.push(NodeWrite::SaveOperation { saved_operation: operation.copy(), expected });
    writes.push(NodeWrite::SaveOutbox { outbox, expected: DatabaseRevision::Missing });
    assert(views(writes@) =~= operation_commit(
        idempotency_key@,
        operation@,
        expected,
        event,
    ).writes);
    Ok(NodeCommit { value: operation, event, writes })
}

/// One revision conflict of the database.
pub open spec fn revision_conflict(
    collection: DatabaseCollection,
    identifier: u128,
    expected: u64,
    observed: u64,
) -> NodeManagerError {
    NodeManagerError::Database(
        DatabaseError::Conflict {
            collection,
            identifier: RecordIdentifier::Entity(identifier),
            expected: DatabaseRevision::Exact(expected),
            observed: Some(observed),
        },
    )
}

fn conflict(
    collection: DatabaseCollection,
    identifier: u128,
    expected: u64,
    observed: u64,
) -> (error: NodeManagerError)
    ensures
        error == revision_conflict(collection, identifier, expected, observed),
{
    NodeManagerError::Database(
        DatabaseError::Conflict {
            collection,
            identifier: RecordIdentifier::Entity(identifier),
            expected: DatabaseRevision::Exact(expected),
            observed: Some(observed),
        },
    )
}

// ---------------------------------------------------------------------------
// Model services
// ---------------------------------------------------------------------------

/// A main node that may change the topology.
pub open spec fn main_required<T>(local: NodeView, next: Result<T, NodeManagerError>) -> Result<
    T,
    NodeManagerError,
> {
    if local.is_active_main() {
        next
    } else {
        Err(NodeManagerError::NotMain)
    }
}

/// Requires the local node to be the active main before topology mutation.
pub fn require_active_main(local: &Node) -> (result: Result<(), NodeManagerError>)
    ensures
        result == main_required(local@, Ok::<(), NodeManagerError>(())),
{
    if local.is_active_main() {
        Ok(())
    } else {
        Err(NodeManagerError::NotMain)
    }
}

/// A revision that the caller expected.
pub open spec fn service_revision_checked(
    service_id: ModelServiceId,
    observed: u64,
    expected: u64,
) -> Result<(), NodeManagerError> {
    if observed == expected {
        Ok(())
    } else {
        Err(revision_conflict(DatabaseCollection::Services, service_id.value, expected, observed))
    }
}

/// Requires one caller revision to match current model-service state.
pub fn require_model_service_revision(
    service_id: &ModelServiceId,
    observed_revision: u64,
    expected_revision: u64,
) -> (result: Result<(), NodeManagerError>)
    ensures
        result == service_revision_checked(*service_id, observed_revision, expected_revision),
{
    if observed_revision == expected_revision {
        return Ok(());
    }
    Err(
        conflict(
            DatabaseCollection::Services,
            service_id.value,
            expected_revision,
            observed_revision,
        ),
    )
}

/// One service with another intent, other groups and a later update.
pub open spec fn service_with_state(
    current: ModelServiceView,
    desired_state: ModelServiceDesiredState,
    placement_group_ids: Seq<PlacementGroupId>,
    updated_at: UnixMilliseconds,
) -> Result<ModelServiceView, NodeManagerError> {
    if updated_at.value < current.timestamps.updated_at.value {
        Err(
            NodeManagerError::InvalidModelService {
                reason: "model service update time moved backwards",
            },
        )
    } else {
        match entity_timestamps(current.timestamps.created_at, updated_at) {
            Err(error) => Err(NodeManagerError::Interface(error)),
            Ok(timestamps) => match model_service(
                current.service_id,
                current.logical_model,
                desired_state,
                placement_group_ids,
                timestamps,
            ) {
                Err(error) => Err(NodeManagerError::Interface(error)),
                Ok(service) => Ok(service),
            },
        }
    }
}

/// Returns one service snapshot with explicit desired state, groups, and update time.
pub fn model_service_with_state(
    current: &ModelService,
    desired_state: ModelServiceDesiredState,
    placement_group_ids: Vec<PlacementGroupId>,
    updated_at: UnixMilliseconds,
) -> (service: Result<ModelService, NodeManagerError>)
    ensures
        outcome(service) == service_with_state(
            current@,
            desired_state,
            placement_group_ids@,
            updated_at,
        ),
{
    if updated_at.value < current.timestamps.updated_at.value {
        return Err(
            NodeManagerError::InvalidModelService {
                reason: "model service update time moved backwards",
            },
        );
    }
    let timestamps = match EntityTimestamps::new(current.timestamps.created_at, updated_at) {
        Ok(timestamps) => timestamps,
        Err(error) => {
            return Err(NodeManagerError::Interface(error));
        },
    };
    match ModelService::new(
        current.service_id,
        current.logical_model.copy(),
        desired_state,
        placement_group_ids,
        timestamps,
    ) {
        Ok(service) => Ok(service),
        Err(error) => Err(NodeManagerError::Interface(error)),
    }
}

/// Some service that is not removed serves the logical model.
pub open spec fn model_is_served(
    services: Seq<ModelServiceView>,
    logical_model: Seq<char>,
) -> bool {
    exists|i: int|
        0 <= i < services.len() && (#[trigger] services[i]).desired_state
            != ModelServiceDesiredState::Removed && services[i].logical_model == logical_model
}

#[verifier::loop_isolation(false)]
fn is_model_served(services: &Vec<ModelService>, service: &ModelService) -> (served: bool)
    ensures
        served == model_is_served(views(services@), service@.logical_model),
{
    let ghost all = views(services@);
    let mut i: usize = 0;
    while i < services.len()
        invariant
            i <= services@.len(),
            forall|k: int|
                0 <= k < i ==> !((#[trigger] all[k]).desired_state
                    != ModelServiceDesiredState::Removed && all[k].logical_model
                    == service@.logical_model),
        decreases services@.len() - i,
    {
        assert(all[i as int] == services@[i as int]@);
        if services[i].desired_state != ModelServiceDesiredState::Removed
            && services[i].logical_model.same(&service.logical_model) {
            return true;
        }
        i += 1;
    }
    false
}

/// What creating one service does.
pub open spec fn service_creation(
    local: NodeView,
    idempotency_key: Seq<char>,
    service: ModelServiceView,
    existing: Result<Option<StoredView<ModelServiceView>>, NodeManagerError>,
    services: Result<Seq<ModelServiceView>, NodeManagerError>,
) -> Result<NodeStepView<ModelServiceView>, NodeManagerError> {
    main_required(
        local,
        if service.desired_state != ModelServiceDesiredState::Stopped
            || service.placement_group_ids.len() != 0 {
            Err(
                NodeManagerError::InvalidModelService {
                    reason: "new model service must be stopped with no placement groups",
                },
            )
        } else {
            match existing {
                Err(error) => Err(error),
                Ok(Some(existing)) => if existing.value != service {
                    Err(
                        NodeManagerError::InvalidModelService {
                            reason: "model service identity already has different content",
                        },
                    )
                } else {
                    Ok(
                        NodeStepView::Observed(
                            observed_change(existing.value, existing.revision),
                        ),
                    )
                },
                Ok(None) => match services {
                    Err(error) => Err(error),
                    Ok(services) => if model_is_served(services, service.logical_model) {
                        Err(
                            NodeManagerError::InvalidModelService {
                                reason: "logical model already has an active service",
                            },
                        )
                    } else {
                        Ok(
                            NodeStepView::Commit(
                                service_commit(
                                    idempotency_key,
                                    service,
                                    DatabaseRevision::Missing,
                                    NodeManagerEvent::ModelServiceCreated {
                                        service_id: service.service_id,
                                    },
                                ),
                            ),
                        )
                    },
                },
            }
        },
    )
}

impl NodeManager {
    /// Creates one empty stopped logical model service under active main authority.
    pub fn create_model_service(
        local: &Node,
        idempotency_key: &str,
        service: ModelService,
        existing: Result<Option<Stored<ModelService>>, NodeManagerError>,
        services: &Result<Vec<ModelService>, NodeManagerError>,
    ) -> (step: Result<NodeStep<ModelService>, NodeManagerError>)
        ensures
            outcome(step) == service_creation(
                local@,
                idempotency_key@,
                service@,
                found(existing),
                listed(*services),
            ),
    {
        require_active_main(local)?;
        if service.desired_state != ModelServiceDesiredState::Stopped
            || service.placement_group_ids.len() != 0 {
            return Err(
                NodeManagerError::InvalidModelService {
                    reason: "new model service must be stopped with no placement groups",
                },
            );
        }
        match existing? {
            Some(existing) => {
                if !existing.value.same(&service) {
                    return Err(
                        NodeManagerError::InvalidModelService {
                            reason: "model service identity already has different content",
                        },
                    );
                }
                Ok(NodeStep::Observed(NodeManagerChange::observed(existing.value, existing.revision)))
            },
            None => {
                let services = match services {
                    Ok(services) => services,
                    Err(error) => {
                        return Err(*error);
                    },
                };
                if is_model_served(services, &service) {
                    return Err(
                        NodeManagerError::InvalidModelService {
                            reason: "logical model already has an active service",
                        },
                    );
                }
                let service_id = service.service_id;
                let commit = save_model_service(
                    idempotency_key,
                    service,
                    DatabaseRevision::Missing,
                    NodeManagerEvent::ModelServiceCreated { service_id },
                )?;
                Ok(NodeStep::Commit(commit))
            },
        }
    }
}

/// A changed service as a step, or the failure of the change.
pub open spec fn service_step(
    idempotency_key: Seq<char>,
    changed: Result<ModelServiceView, NodeManagerError>,
    expected_revision: u64,
    event: NodeManagerEvent,
) -> Result<NodeStepView<ModelServiceView>, NodeManagerError> {
    match changed {
        Err(error) => Err(error),
        Ok(service) => Ok(
            NodeStepView::Commit(
                service_commit(
                    idempotency_key,
                    service,
                    DatabaseRevision::Exact(expected_revision),
                    event,
                ),
            ),
        ),
    }
}

/// What attaching one group does.
pub open spec fn group_attachment(
    local: NodeView,
    idempotency_key: Seq<char>,
    current: StoredView<ModelServiceView>,
    placement_group_id: PlacementGroupId,
    expected_revision: u64,
    updated_at: UnixMilliseconds,
) -> Result<NodeStepView<ModelServiceView>, NodeManagerError> {
    let service = current.value;
    main_required(
        local,
        if service.placement_group_ids.contains(placement_group_id) {
            Ok(NodeStepView::Observed(observed_change(service, current.revision)))
        } else {
            match service_revision_checked(
                service.service_id,
                current.revision,
                expected_revision,
            ) {
                Err(error) => Err(error),
                Ok(_) => if service.desired_state == ModelServiceDesiredState::Removed {
                    Err(
                        NodeManagerError::InvalidModelService {
                            reason: "removed model service cannot accept placement groups",
                        },
                    )
                } else {
                    service_step(
                        idempotency_key,
                        service_with_state(
                            service,
                            service.desired_state,
                            service.placement_group_ids.push(placement_group_id),
                            updated_at,
                        ),
                        expected_revision,
                        NodeManagerEvent::ModelServiceUpdated { service_id: service.service_id },
                    )
                },
            }
        },
    )
}

impl NodeManager {
    /// Attaches one placement group to its owning logical service exactly once.
    pub fn attach_placement_group(
        local: &Node,
        idempotency_key: &str,
        current: Stored<ModelService>,
        placement_group_id: PlacementGroupId,
        expected_revision: u64,
        updated_at: UnixMilliseconds,
    ) -> (step: Result<NodeStep<ModelService>, NodeManagerError>)
        ensures
            outcome(step) == group_attachment(
                local@,
                idempotency_key@,
                current@,
                placement_group_id,
                expected_revision,
                updated_at,
            ),
    {
        require_active_main(local)?;
        let service = current.value;
        if contains_id(&service.placement_group_ids, &placement_group_id) {
            return Ok(NodeStep::Observed(NodeManagerChange::observed(service, current.revision)));
        }
        require_model_service_revision(&service.service_id, current.revision, expected_revision)?;
        if service.desired_state == ModelServiceDesiredState::Removed {
            return Err(
                NodeManagerError::InvalidModelService {
                    reason: "removed model service cannot accept placement groups",
                },
            );
        }
        let mut groups = clone_ids(&service.placement_group_ids);
        groups.push(placement_group_id);
        let changed = model_service_with_state(&service, service.desired_state, groups, updated_at)?;
        let commit = save_model_service(
            idempotency_key,
            changed,
            DatabaseRevision::Exact(expected_revision),
            NodeManagerEvent::ModelServiceUpdated { service_id: service.service_id },
        )?;
        Ok(NodeStep::Commit(commit))
    }
}

/// A group that stays when another is detached.
pub open spec fn stays(group: PlacementGroupId, placement_group_id: PlacementGroupId) -> bool {
    group != placement_group_id
}

/// The groups that stay when one group is detached.
pub open spec fn remaining_groups(
    groups: Seq<PlacementGroupId>,
    placement_group_id: PlacementGroupId,
) -> Seq<PlacementGroupId> {
    selected(groups, |group: PlacementGroupId| stays(group, placement_group_id))
}

#[verifier::loop_isolation(false)]
fn groups_without(
    groups: &Vec<PlacementGroupId>,
    placement_group_id: &PlacementGroupId,
) -> (remaining: Vec<PlacementGroupId>)
    ensures
        remaining@ == remaining_groups(groups@, *placement_group_id),
{
    let ghost keep = |group: PlacementGroupId| stays(group, *placement_group_id);
    let mut remaining: Vec<PlacementGroupId> = Vec::new();
    let mut i: usize = 0;
    proof {
        assert(remaining@ =~= selected(groups@.take(0), keep));
    }
    while i < groups.len()
        invariant
            i <= groups@.len(),
            remaining@ == selected(groups@.take(i as int), keep),
        decreases groups@.len() - i,
    {
        proof {
            lemma_selected_step(groups@, keep, i as int);
        }
        if groups[i] != *placement_group_id {
            remaining.push(groups[i]);
        }
        i += 1;
    }
    proof {
        assert(groups@.take(groups@.len() as int) =~= groups@);
    }
    remaining
}

/// What detaching one group does.
pub open spec fn group_detachment(
    local: NodeView,
    idempotency_key: Seq<char>,
    current: StoredView<ModelServiceView>,
    placement_group_id: PlacementGroupId,
    expected_revision: u64,
    updated_at: UnixMilliseconds,
) -> Result<NodeStepView<ModelServiceView>, NodeManagerError> {
    let service = current.value;
    main_required(
        local,
        if !service.placement_group_ids.contains(placement_group_id) {
            Ok(NodeStepView::Observed(observed_change(service, current.revision)))
        } else {
            match service_revision_checked(
                service.service_id,
                current.revision,
                expected_revision,
            ) {
                Err(error) => Err(error),
                Ok(_) => service_step(
                    idempotency_key,
                    service_with_state(
                        service,
                        service.desired_state,
                        remaining_groups(service.placement_group_ids, placement_group_id),
                        updated_at,
                    ),
                    expected_revision,
                    NodeManagerEvent::ModelServiceUpdated { service_id: service.service_id },
                ),
            }
        },
    )
}

impl NodeManager {
    /// Detaches one placement group after its lifecycle releases it.
    pub fn detach_placement_group(
        local: &Node,
        idempotency_key: &str,
        current: Stored<ModelService>,
        placement_group_id: &PlacementGroupId,
        expected_revision: u64,
        updated_at: UnixMilliseconds,
    ) -> (step: Result<NodeStep<ModelService>, NodeManagerError>)
        ensures
            outcome(step) == group_detachment(
                local@,
                idempotency_key@,
                current@,
                *placement_group_id,
                expected_revision,
                updated_at,
            ),
    {
        require_active_main(local)?;
        let service = current.value;
        if !contains_id(&service.placement_group_ids, placement_group_id) {
            return Ok(NodeStep::Observed(NodeManagerChange::observed(service, current.revision)));
        }
        require_model_service_revision(&service.service_id, current.revision, expected_revision)?;
        let groups = groups_without(&service.placement_group_ids, placement_group_id);
        let changed = model_service_with_state(&service, service.desired_state, groups, updated_at)?;
        let commit = save_model_service(
            idempotency_key,
            changed,
            DatabaseRevision::Exact(expected_revision),
            NodeManagerEvent::ModelServiceUpdated { service_id: service.service_id },
        )?;
        Ok(NodeStep::Commit(commit))
    }
}

/// Intents that one service may take up: a removed service none, running only with groups,
/// removed only without.
pub open spec fn service_transition_allowed(
    service: ModelServiceView,
    desired_state: ModelServiceDesiredState,
) -> bool {
    &&& service.desired_state != ModelServiceDesiredState::Removed
    &&& desired_state == ModelServiceDesiredState::Running ==> service.placement_group_ids.len() > 0
    &&& desired_state == ModelServiceDesiredState::Removed ==> service.placement_group_ids.len()
        == 0
}

/// What one service transition does.
pub open spec fn service_transition(
    local: NodeView,
    idempotency_key: Seq<char>,
    current: StoredView<ModelServiceView>,
    desired_state: ModelServiceDesiredState,
    expected_revision: u64,
    updated_at: UnixMilliseconds,
) -> Result<NodeStepView<ModelServiceView>, NodeManagerError> {
    let service = current.value;
    main_required(
        local,
        if service.desired_state == desired_state {
            Ok(NodeStepView::Observed(observed_change(service, current.revision)))
        } else {
            match service_revision_checked(
                service.service_id,
                current.revision,
                expected_revision,
            ) {
                Err(error) => Err(error),
                Ok(_) => if !service_transition_allowed(service, desired_state) {
                    Err(
                        NodeManagerError::InvalidModelService {
                            reason: "model service desired-state transition is invalid",
                        },
                    )
                } else {
                    service_step(
                        idempotency_key,
                        service_with_state(
                            service,
                            desired_state,
                            service.placement_group_ids,
                            updated_at,
                        ),
                        expected_revision,
                        if desired_state == ModelServiceDesiredState::Removed {
                            NodeManagerEvent::ModelServiceRemoved { service_id: service.service_id }
                        } else {
                            NodeManagerEvent::ModelServiceUpdated { service_id: service.service_id }
                        },
                    )
                },
            }
        },
    )
}

impl NodeManager {
    /// Applies one explicit running, stopped, or removed service intention.
    pub fn transition_model_service(
        local: &Node,
        idempotency_key: &str,
        current: Stored<ModelService>,
        desired_state: ModelServiceDesiredState,
        expected_revision: u64,
        updated_at: UnixMilliseconds,
    ) -> (step: Result<NodeStep<ModelService>, NodeManagerError>)
        ensures
            outcome(step) == service_transition(
                local@,
                idempotency_key@,
                current@,
                desired_state,
                expected_revision,
                updated_at,
            ),
    {
        require_active_main(local)?;
        let service = current.value;
        if service.desired_state == desired_state {
            return Ok(NodeStep::Observed(NodeManagerChange::observed(service, current.revision)));
        }
        require_model_service_revision(&service.service_id, current.revision, expected_revision)?;
        if service.desired_state == ModelServiceDesiredState::Removed || (desired_state
            == ModelServiceDesiredState::Running && service.placement_group_ids.len() == 0) || (
        desired_state == ModelServiceDesiredState::Removed && service.placement_group_ids.len() != 0) {
            return Err(
                NodeManagerError::InvalidModelService {
                    reason: "model service desired-state transition is invalid",
                },
            );
        }
        let changed = model_service_with_state(
            &service,
            desired_state,
            clone_ids(&service.placement_group_ids),
            updated_at,
        )?;
        let event = if desired_state == ModelServiceDesiredState::Removed {
            NodeManagerEvent::ModelServiceRemoved { service_id: service.service_id }
        } else {
            NodeManagerEvent::ModelServiceUpdated { service_id: service.service_id }
        };
        let commit = save_model_service(
            idempotency_key,
            changed,
            DatabaseRevision::Exact(expected_revision),
            event,
        )?;
        Ok(NodeStep::Commit(commit))
    }
}

/// Returns one committed service from the answer to its transaction.
pub fn model_service_committed(
    commit: NodeCommit<ModelService>,
    result: Result<DatabaseTransactionResult, DatabaseError>,
) -> (change: Result<NodeManagerChange<ModelService>, NodeManagerError>)
    ensures
        outcome(change) == entity_committed(
            commit@,
            DatabaseCollection::Services,
            commit@.value.service_id.text(),
            outcome(result),
        ),
{
    let identifier = commit.value.service_id.to_text();
    commit_entity(commit, DatabaseCollection::Services, identifier.as_str(), result)
}

/// No change of a removed service is committed: it accepts no group and no other intent.
pub proof fn law_removed_service_is_final(
    local: NodeView,
    idempotency_key: Seq<char>,
    current: StoredView<ModelServiceView>,
    placement_group_id: PlacementGroupId,
    desired_state: ModelServiceDesiredState,
    expected_revision: u64,
    updated_at: UnixMilliseconds,
)
    requires
        current.value.desired_state == ModelServiceDesiredState::Removed,
    ensures
        !(group_attachment(
            local,
            idempotency_key,
            current,
            placement_group_id,
            expected_revision,
            updated_at,
        ) matches Ok(NodeStepView::Commit(_))),
        !(service_transition(
            local,
            idempotency_key,
            current,
            desired_state,
            expected_revision,
            updated_at,
        ) matches Ok(NodeStepView::Commit(_))),
{
}

/// Only an active main changes services.
pub proof fn law_services_need_active_main(
    local: NodeView,
    idempotency_key: Seq<char>,
    current: StoredView<ModelServiceView>,
    placement_group_id: PlacementGroupId,
    desired_state: ModelServiceDesiredState,
    expected_revision: u64,
    updated_at: UnixMilliseconds,
    existing: Result<Option<StoredView<ModelServiceView>>, NodeManagerError>,
    services: Result<Seq<ModelServiceView>, NodeManagerError>,
)
    requires
        !local.is_active_main(),
    ensures
        service_creation(local, idempotency_key, current.value, existing, services) == Err::<
            NodeStepView<ModelServiceView>,
            NodeManagerError,
        >(NodeManagerError::NotMain),
        group_attachment(
            local,
            idempotency_key,
            current,
            placement_group_id,
            expected_revision,
            updated_at,
        ) == Err::<NodeStepView<ModelServiceView>, NodeManagerError>(NodeManagerError::NotMain),
        group_detachment(
            local,
            idempotency_key,
            current,
            placement_group_id,
            expected_revision,
            updated_at,
        ) == Err::<NodeStepView<ModelServiceView>, NodeManagerError>(NodeManagerError::NotMain),
        service_transition(
            local,
            idempotency_key,
            current,
            desired_state,
            expected_revision,
            updated_at,
        ) == Err::<NodeStepView<ModelServiceView>, NodeManagerError>(NodeManagerError::NotMain),
{
}

/// Detaching the group that was just attached gives the former groups back.
pub proof fn law_detach_undoes_attach(
    groups: Seq<PlacementGroupId>,
    placement_group_id: PlacementGroupId,
)
    requires
        !groups.contains(placement_group_id),
    ensures
        remaining_groups(groups.push(placement_group_id), placement_group_id) == groups,
{
    let keep = |group: PlacementGroupId| stays(group, placement_group_id);
    let longer = groups.push(placement_group_id);
    assert(longer.drop_last() =~= groups);
    assert(!keep(longer.last()));
    assert forall|i: int| 0 <= i < groups.len() implies keep(#[trigger] groups[i]) by {
        assert(groups.contains(groups[i]));
    }
    lemma_selected_all(groups, keep);
}

proof fn lemma_selected_all(groups: Seq<PlacementGroupId>, keep: spec_fn(PlacementGroupId) -> bool)
    requires
        forall|i: int| 0 <= i < groups.len() ==> keep(#[trigger] groups[i]),
    ensures
        selected(groups, keep) == groups,
    decreases groups.len(),
{
    if groups.len() > 0 {
        let shorter = groups.drop_last();
        assert forall|i: int| 0 <= i < shorter.len() implies keep(#[trigger] shorter[i]) by {
            assert(shorter[i] == groups[i]);
        }
        lemma_selected_all(shorter, keep);
        assert(keep(groups[groups.len() - 1]));
        assert(groups =~= shorter.push(groups.last()));
    } else {
        assert(selected(groups, keep) =~= groups);
    }
}

// ---------------------------------------------------------------------------
// Hardware
// ---------------------------------------------------------------------------

/// The stored observation of one node.
pub open spec fn stored_observation(
    node_id: NodeId,
    result: Result<DatabaseResultView<HardwareObservationView>, DatabaseError>,
) -> Result<Option<StoredView<HardwareObservationView>>, NodeManagerError> {
    match optional_record(result, "hardware observation query returned a collection") {
        Err(error) => Err(error),
        Ok(None) => Ok(None),
        Ok(Some(stored)) => if stored.value.node_id != node_id {
            Err(
                NodeManagerError::CorruptState {
                    reason: "hardware record identity differs from its database key",
                },
            )
        } else {
            Ok(Some(stored))
        },
    }
}

impl NodeManager {
    /// Returns the latest durable hardware observation for one node when available.
    pub fn hardware_observation(
        node_id: &NodeId,
        result: Result<DatabaseResult<HardwareObservation>, DatabaseError>,
    ) -> (observation: Result<Option<Stored<HardwareObservation>>, NodeManagerError>)
        ensures
            found(observation) == stored_observation(*node_id, outcome(result)),
    {
        match record_if_available(result, "hardware observation query returned a collection")? {
            None => Ok(None),
            Some(stored) => {
                if stored.value.node_id != *node_id {
                    return Err(
                        NodeManagerError::CorruptState {
                            reason: "hardware record identity differs from its database key",
                        },
                    );
                }
                Ok(Some(stored))
            },
        }
    }
}

/// One node that points at an observation.
pub open spec fn node_observed(
    local: NodeView,
    observation: HardwareObservationView,
    timestamps: EntityTimestamps,
) -> NodeView {
    NodeView {
        latest_hardware_observation_id: Some(observation.observation_id),
        timestamps,
        ..local
    }
}

/// The commit of one observation with its node pointer and its event.
pub open spec fn hardware_commit(
    idempotency_key: Seq<char>,
    observation: HardwareObservationView,
    hardware_expected: DatabaseRevision,
    node: NodeView,
    node_expected: DatabaseRevision,
) -> NodeCommitView<HardwareObservationView> {
    let event = NodeManagerEvent::HardwareRecorded { observation_id: observation.observation_id };
    NodeCommitView {
        value: observation,
        event,
        writes: seq![
            NodeWriteView::SaveHardware { observation, expected: hardware_expected },
            NodeWriteView::SaveNode { node, expected: node_expected },
            outbox_write(idempotency_key, event, observation.observed_at),
        ],
    }
}

/// What recording one local observation does.
pub open spec fn hardware_recording(
    local_node_id: NodeId,
    idempotency_key: Seq<char>,
    local: StoredView<NodeView>,
    expected_local_revision: u64,
    observation: HardwareObservationView,
    stored: Result<DatabaseResultView<HardwareObservationView>, DatabaseError>,
) -> Result<NodeStepView<HardwareObservationView>, NodeManagerError> {
    if observation.node_id != local_node_id {
        Err(
            NodeManagerError::InvalidHardwareObservation {
                reason: "hardware observation belongs to a different node",
            },
        )
    } else if local.value.latest_hardware_observation_id == Some(observation.observation_id) {
        match stored_observation(local_node_id, stored) {
            Err(error) => Err(error),
            Ok(None) => Err(
                NodeManagerError::CorruptState {
                    reason: "node references a missing hardware observation",
                },
            ),
            Ok(Some(stored)) => if stored.value != observation {
                Err(
                    NodeManagerError::CorruptState {
                        reason: "node hardware observation identity changed content",
                    },
                )
            } else {
                Ok(NodeStepView::Observed(observed_change(observation, local.revision)))
            },
        }
    } else if local.revision != expected_local_revision {
        Err(
            revision_conflict(
                DatabaseCollection::Nodes,
                local_node_id.value,
                expected_local_revision,
                local.revision,
            ),
        )
    } else if observation.observed_at.value < local.value.timestamps.updated_at.value {
        Err(
            NodeManagerError::InvalidHardwareObservation {
                reason: "hardware observation precedes committed node state",
            },
        )
    } else {
        match stored_observation(local_node_id, stored) {
            Err(error) => Err(error),
            Ok(previous) => if previous matches Some(previous)
                && previous.value.observed_at.value > observation.observed_at.value {
                Err(
                    NodeManagerError::InvalidHardwareObservation {
                        reason: "hardware observation time moved backwards",
                    },
                )
            } else {
                match entity_timestamps(
                    local.value.timestamps.created_at,
                    observation.observed_at,
                ) {
                    Err(error) => Err(NodeManagerError::Interface(error)),
                    Ok(timestamps) => Ok(
                        NodeStepView::Commit(
                            hardware_commit(
                                idempotency_key,
                                observation,
                                match previous {
                                    Some(previous) => DatabaseRevision::Exact(previous.revision),
                                    None => DatabaseRevision::Missing,
                                },
                                node_observed(local.value, observation, timestamps),
                                DatabaseRevision::Exact(expected_local_revision),
                            ),
                        ),
                    ),
                }
            },
        }
    }
}

fn save_hardware(
    idempotency_key: &str,
    observation: HardwareObservation,
    hardware_expected: DatabaseRevision,
    node: Node,
    node_expected: DatabaseRevision,
) -> (commit: Result<NodeCommit<HardwareObservation>, NodeManagerError>)
    ensures
        outcome(commit) == Ok::<NodeCommitView<HardwareObservationView>, NodeManagerError>(
            hardware_commit(
                idempotency_key@,
                observation@,
                hardware_expected,
                node@,
                node_expected,
            ),
        ),
{
    let event = NodeManagerEvent::HardwareRecorded { observation_id: observation.observation_id };
    let outbox = pending_outbox_event(idempotency_key, &event, observation.observed_at)?;
    let mut writes: Vec<NodeWrite> = Vec::new();
    let ghost model = node@;
    writes.push(
        NodeWrite::SaveHardware { observation: observation.copy(), expected: hardware_expected },
    );
    writes.push(NodeWrite::SaveNode { node, expected: node_expected });
    writes.push(NodeWrite::SaveOutbox { outbox, expected: DatabaseRevision::Missing });
    assert(views(writes@) =~= hardware_commit(
        idempotency_key@,
        observation@,
        hardware_expected,
        model,
        node_expected,
    ).writes);
    Ok(NodeCommit { value: observation, event, writes })
}

impl NodeManager {
    /// Records one local observation and advances the node's latest pointer.
    pub fn record_local_hardware_observation(
        local_node_id: &NodeId,
        idempotency_key: &str,
        local: Stored<Node>,
        expected_local_revision: u64,
        observation: HardwareObservation,
        stored: Result<DatabaseResult<HardwareObservation>, DatabaseError>,
    ) -> (step: Result<NodeStep<HardwareObservation>, NodeManagerError>)
        ensures
            outcome(step) == hardware_recording(
                *local_node_id,
                idempotency_key@,
                local@,
                expected_local_revision,
                observation@,
                outcome(stored),
            ),
    {
        if observation.node_id != *local_node_id {
            return Err(
                NodeManagerError::InvalidHardwareObservation {
                    reason: "hardware observation belongs to a different node",
                },
            );
        }
        if local.value.latest_hardware_observation_id == Some(observation.observation_id) {
            return match NodeManager::hardware_observation(local_node_id, stored)? {
                None => Err(
                    NodeManagerError::CorruptState {
                        reason: "node references a missing hardware observation",
                    },
                ),
                Some(stored) => {
                    if !stored.value.same(&observation) {
                        Err(
                            NodeManagerError::CorruptState {
                                reason: "node hardware observation identity changed content",
                            },
                        )
                    } else {
                        Ok(NodeStep::Observed(NodeManagerChange::observed(observation, local.revision)))
                    }
                },
            };
        }
        if local.revision != expected_local_revision {
            return Err(
                conflict(
                    DatabaseCollection::Nodes,
                    local_node_id.value,
                    expected_local_revision,
                    local.revision,
                ),
            );
        }
        if observation.observed_at.value < local.value.timestamps.updated_at.value {
            return Err(
                NodeManagerError::InvalidHardwareObservation {
                    reason: "hardware observation precedes committed node state",
                },
            );
        }
        let previous = NodeManager::hardware_observation(local_node_id, stored)?;
        let moved_backwards = match &previous {
            Some(previous) => previous.value.observed_at.value > observation.observed_at.value,
            None => false,
        };
        if moved_backwards {
            return Err(
                NodeManagerError::InvalidHardwareObservation {
                    reason: "hardware observation time moved backwards",
                },
            );
        }
        let timestamps = match EntityTimestamps::new(
            local.value.timestamps.created_at,
            observation.observed_at,
        ) {
            Ok(timestamps) => timestamps,
            Err(error) => {
                return Err(NodeManagerError::Interface(error));
            },
        };
        let hardware_expected = match &previous {
            Some(previous) => DatabaseRevision::Exact(previous.revision),
            None => DatabaseRevision::Missing,
        };
        let mut node = local.value;
        node.latest_hardware_observation_id = Some(observation.observation_id);
        node.timestamps = timestamps;
        let commit = save_hardware(
            idempotency_key,
            observation,
            hardware_expected,
            node,
            DatabaseRevision::Exact(expected_local_revision),
        )?;
        Ok(NodeStep::Commit(commit))
    }
}

/// Returns one committed observation from the answer to its transaction.
pub fn hardware_committed(
    commit: NodeCommit<HardwareObservation>,
    result: Result<DatabaseTransactionResult, DatabaseError>,
) -> (change: Result<NodeManagerChange<HardwareObservation>, NodeManagerError>)
    ensures
        outcome(change) == match outcome(result) {
            Err(error) => Err(NodeManagerError::Database(error)),
            Ok(result) => committed_change(
                commit@,
                result.disposition,
                hardware_revision(result.commits, commit@.value.node_id),
            ),
        },
{
    match result {
        Err(error) => Err(NodeManagerError::Database(error)),
        Ok(result) => {
            let revision = hardware_transaction_node_revision(
                &result.commits,
                &commit.value.node_id,
            )?;
            Ok(
                NodeManagerChange::committed(
                    commit.value,
                    revision,
                    event_if_applied(result.disposition, commit.event),
                ),
            )
        },
    }
}

/// A recorded observation never precedes the node's state or an earlier observation.
pub proof fn law_observations_move_forward(
    local_node_id: NodeId,
    idempotency_key: Seq<char>,
    local: StoredView<NodeView>,
    expected_local_revision: u64,
    observation: HardwareObservationView,
    stored: Result<DatabaseResultView<HardwareObservationView>, DatabaseError>,
)
    requires
        hardware_recording(
            local_node_id,
            idempotency_key,
            local,
            expected_local_revision,
            observation,
            stored,
        ) matches Ok(NodeStepView::Commit(_)),
    ensures
        local.value.timestamps.updated_at.value <= observation.observed_at.value,
        stored_observation(local_node_id, stored) matches Ok(Some(previous))
            ==> previous.value.observed_at.value <= observation.observed_at.value,
        local.revision == expected_local_revision,
{
}

// ---------------------------------------------------------------------------
// Children
// ---------------------------------------------------------------------------

/// What one child transition does.
pub open spec fn child_transition(
    local: NodeView,
    local_node_id: NodeId,
    idempotency_key: Seq<char>,
    current: StoredView<NodeView>,
    node_id: NodeId,
    expected_revision: u64,
    transition: NodeTransition,
    updated_at: UnixMilliseconds,
) -> Result<NodeCommitView<NodeView>, NodeManagerError> {
    main_required(
        local,
        if node_id == local_node_id {
            Err(
                NodeManagerError::InvalidNodeEnrollment {
                    reason: "child transition cannot target the local main",
                },
            )
        } else if current.revision != expected_revision && current.value.state
            != transition_target(transition) {
            Err(
                revision_conflict(
                    DatabaseCollection::Nodes,
                    node_id.value,
                    expected_revision,
                    current.revision,
                ),
            )
        } else if current.value.role != NodeRole::Child {
            Err(
                NodeManagerError::InvalidNodeEnrollment {
                    reason: "child transition requires a child node",
                },
            )
        } else {
            match child_state(node_id, current.value.state, transition) {
                Err(error) => Err(error),
                Ok(state) => match entity_timestamps(
                    current.value.timestamps.created_at,
                    updated_at,
                ) {
                    Err(error) => Err(NodeManagerError::Interface(error)),
                    Ok(timestamps) => Ok(
                        node_commit(
                            idempotency_key,
                            NodeView { state, timestamps, ..current.value },
                            DatabaseRevision::Exact(expected_revision),
                            transition_event(node_id, transition),
                        ),
                    ),
                },
            }
        },
    )
}

impl NodeManager {
    /// Applies one exact optimistic child-node lifecycle transition under main authority.
    pub fn transition_child(
        local: &Node,
        local_node_id: &NodeId,
        idempotency_key: &str,
        current: Stored<Node>,
        node_id: &NodeId,
        expected_revision: u64,
        transition: NodeTransition,
        updated_at: UnixMilliseconds,
    ) -> (commit: Result<NodeCommit<Node>, NodeManagerError>)
        ensures
            outcome(commit) == child_transition(
                local@,
                *local_node_id,
                idempotency_key@,
                current@,
                *node_id,
                expected_revision,
                transition,
                updated_at,
            ),
    {
        require_active_main(local)?;
        if *node_id == *local_node_id {
            return Err(
                NodeManagerError::InvalidNodeEnrollment {
                    reason: "child transition cannot target the local main",
                },
            );
        }
        if current.revision != expected_revision && current.value.state != transition_node_state(
            transition,
        ) {
            return Err(
                conflict(
                    DatabaseCollection::Nodes,
                    node_id.value,
                    expected_revision,
                    current.revision,
                ),
            );
        }
        if current.value.role != NodeRole::Child {
            return Err(
                NodeManagerError::InvalidNodeEnrollment {
                    reason: "child transition requires a child node",
                },
            );
        }
        let state = desired_node_state(node_id, current.value.state, transition)?;
        let timestamps = match EntityTimestamps::new(current.value.timestamps.created_at, updated_at) {
            Ok(timestamps) => timestamps,
            Err(error) => {
                return Err(NodeManagerError::Interface(error));
            },
        };
        let mut node = current.value;
        node.state = state;
        node.timestamps = timestamps;
        save_node(
            idempotency_key,
            node,
            DatabaseRevision::Exact(expected_revision),
            node_transition_event(*node_id, transition),
        )
    }
}

/// Returns one committed node from the answer to its transaction.
pub fn node_committed(
    commit: NodeCommit<Node>,
    result: Result<DatabaseTransactionResult, DatabaseError>,
) -> (change: Result<NodeManagerChange<Node>, NodeManagerError>)
    ensures
        outcome(change) == entity_committed(
            commit@,
            DatabaseCollection::Nodes,
            commit@.value.identity.node_id.text(),
            outcome(result),
        ),
{
    let identifier = commit.value.identity.node_id.to_text();
    commit_entity(commit, DatabaseCollection::Nodes, identifier.as_str(), result)
}

// ---------------------------------------------------------------------------
// Operations
// ---------------------------------------------------------------------------

/// The failure of an operation that is not in an allowed state.
pub open spec fn operation_refused(
    operation_id: OperationId,
    current: OperationState,
    action: &'static str,
) -> NodeManagerError {
    NodeManagerError::InvalidOperationTransition {
        operation_id,
        current: operation_state_text(current),
        action,
    }
}

/// Requires one operation to be in an allowed state before mutation.
#[verifier::loop_isolation(false)]
pub fn require_operation_state(
    operation_id: &OperationId,
    current: OperationState,
    allowed: &Vec<OperationState>,
    action: &'static str,
) -> (result: Result<(), NodeManagerError>)
    ensures
        result == (if allowed@.contains(current) {
            Ok::<(), NodeManagerError>(())
        } else {
            Err(operation_refused(*operation_id, current, action))
        }),
{
    let mut i: usize = 0;
    while i < allowed.len()
        invariant
            i <= allowed@.len(),
            forall|k: int| 0 <= k < i ==> allowed@[k] != current,
        decreases allowed@.len() - i,
    {
        if allowed[i] == current {
            assert(allowed@[i as int] == current);
            return Ok(());
        }
        i += 1;
    }
    Err(
        NodeManagerError::InvalidOperationTransition {
            operation_id: *operation_id,
            current: operation_state_name(current),
            action,
        },
    )
}

/// An operation built from parts, or the failure of building it.
pub open spec fn operation_built(
    operation_id: OperationId,
    kind: OperationKind,
    target: OperationTarget,
    state: OperationState,
    failure: Option<FailureDescriptionView>,
    completed_at: Option<UnixMilliseconds>,
    created_at: UnixMilliseconds,
    updated_at: UnixMilliseconds,
) -> Result<OperationView, NodeManagerError> {
    match entity_timestamps(created_at, updated_at) {
        Err(error) => Err(NodeManagerError::Interface(error)),
        Ok(timestamps) => match entity_operation(
            operation_id,
            kind,
            target,
            state,
            failure,
            completed_at,
            timestamps,
        ) {
            Err(error) => Err(NodeManagerError::Interface(error)),
            Ok(operation) => Ok(operation),
        },
    }
}

fn build_operation(
    operation_id: OperationId,
    kind: OperationKind,
    target: OperationTarget,
    state: OperationState,
    failure: Option<FailureDescription>,
    completed_at: Option<UnixMilliseconds>,
    created_at: UnixMilliseconds,
    updated_at: UnixMilliseconds,
) -> (built: Result<Operation, NodeManagerError>)
    ensures
        outcome(built) == operation_built(
            operation_id,
            kind,
            target,
            state,
            viewed(failure),
            completed_at,
            created_at,
            updated_at,
        ),
{
    let timestamps = match EntityTimestamps::new(created_at, updated_at) {
        Ok(timestamps) => timestamps,
        Err(error) => {
            return Err(NodeManagerError::Interface(error));
        },
    };
    match Operation::new(operation_id, kind, target, state, failure, completed_at, timestamps) {
        Ok(operation) => Ok(operation),
        Err(error) => Err(NodeManagerError::Interface(error)),
    }
}

/// What beginning one operation does.
pub open spec fn operation_beginning(
    idempotency_key: Seq<char>,
    operation_id: OperationId,
    kind: OperationKind,
    target: OperationTarget,
    created_at: UnixMilliseconds,
) -> NodeCommitView<OperationView> {
    operation_commit(
        idempotency_key,
        OperationView {
            operation_id,
            kind,
            target,
            state: OperationState::Pending,
            failure: None,
            completed_at: None,
            timestamps: EntityTimestamps { created_at, updated_at: created_at },
        },
        DatabaseRevision::Missing,
        NodeManagerEvent::OperationBegan { operation_id },
    )
}

impl NodeManager {
    /// Creates one pending operation through an idempotent database command.
    pub fn begin_operation(
        idempotency_key: &str,
        operation_id: OperationId,
        kind: OperationKind,
        target: OperationTarget,
        created_at: UnixMilliseconds,
    ) -> (commit: Result<NodeCommit<Operation>, NodeManagerError>)
        ensures
            outcome(commit) == Ok::<NodeCommitView<OperationView>, NodeManagerError>(
                operation_beginning(idempotency_key@, operation_id, kind, target, created_at),
            ),
    {
        let operation = build_operation(
            operation_id,
            kind,
            target,
            OperationState::Pending,
            None,
            None,
            created_at,
            created_at,
        )?;
        save_operation(
            idempotency_key,
            operation,
            DatabaseRevision::Missing,
            NodeManagerEvent::OperationBegan { operation_id },
        )
    }
}

/// A changed operation as a commit, or the failure of the change.
pub open spec fn operation_step(
    idempotency_key: Seq<char>,
    changed: Result<OperationView, NodeManagerError>,
    expected_revision: u64,
    event: NodeManagerEvent,
) -> Result<NodeCommitView<OperationView>, NodeManagerError> {
    match changed {
        Err(error) => Err(error),
        Ok(operation) => Ok(
            operation_commit(
                idempotency_key,
                operation,
                DatabaseRevision::Exact(expected_revision),
                event,
            ),
        ),
    }
}

/// What starting one operation does: a running one is saved again, a pending one is started.
pub open spec fn operation_starting(
    idempotency_key: Seq<char>,
    operation_id: OperationId,
    current: OperationView,
    expected_revision: u64,
    started_at: UnixMilliseconds,
) -> Result<NodeCommitView<OperationView>, NodeManagerError> {
    operation_step(
        idempotency_key,
        if current.state == OperationState::Running {
            Ok(current)
        } else if current.state != OperationState::Pending {
            Err(operation_refused(operation_id, current.state, "start"))
        } else {
            operation_built(
                operation_id,
                current.kind,
                current.target,
                OperationState::Running,
                None,
                None,
                current.timestamps.created_at,
                started_at,
            )
        },
        expected_revision,
        NodeManagerEvent::OperationStarted { operation_id },
    )
}

impl NodeManager {
    /// Moves one pending operation into its running state.
    pub fn start_operation(
        idempotency_key: &str,
        operation_id: &OperationId,
        current: Operation,
        expected_revision: u64,
        started_at: UnixMilliseconds,
    ) -> (commit: Result<NodeCommit<Operation>, NodeManagerError>)
        ensures
            outcome(commit) == operation_starting(
                idempotency_key@,
                *operation_id,
                current@,
                expected_revision,
                started_at,
            ),
    {
        let operation = if current.state == OperationState::Running {
            current
        } else {
            let mut allowed: Vec<OperationState> = Vec::new();
            allowed.push(OperationState::Pending);
            assert(allowed@[0] == OperationState::Pending);
            assert(allowed@.contains(current.state) <==> current.state == OperationState::Pending);
            require_operation_state(operation_id, current.state, &allowed, "start")?;
            build_operation(
                *operation_id,
                current.kind,
                current.target,
                OperationState::Running,
                None,
                None,
                current.timestamps.created_at,
                started_at,
            )?
        };
        save_operation(
            idempotency_key,
            operation,
            DatabaseRevision::Exact(expected_revision),
            NodeManagerEvent::OperationStarted { operation_id: *operation_id },
        )
    }
}

/// The state of one completion.
pub open spec fn completed_state(completion: OperationCompletionView) -> OperationState {
    match completion {
        OperationCompletionView::Succeeded => OperationState::Succeeded,
        OperationCompletionView::Failed(_) => OperationState::Failed,
        OperationCompletionView::Cancelled => OperationState::Cancelled,
    }
}

/// Returns the terminal state represented by one completion request.
pub fn completion_state(completion: &OperationCompletion) -> (state: OperationState)
    ensures
        state == completed_state(completion@),
{
    match completion {
        OperationCompletion::Succeeded => OperationState::Succeeded,
        OperationCompletion::Failed(_) => OperationState::Failed,
        OperationCompletion::Cancelled => OperationState::Cancelled,
    }
}

/// The event of one completion.
pub open spec fn completed_event(
    operation_id: OperationId,
    completion: OperationCompletionView,
) -> NodeManagerEvent {
    match completion {
        OperationCompletionView::Succeeded => NodeManagerEvent::OperationSucceeded { operation_id },
        OperationCompletionView::Failed(_) => NodeManagerEvent::OperationFailed { operation_id },
        OperationCompletionView::Cancelled => NodeManagerEvent::OperationCancelled { operation_id },
    }
}

/// Returns the past-tense event corresponding to one terminal operation outcome.
pub fn completion_event(
    operation_id: OperationId,
    completion: &OperationCompletion,
) -> (event: NodeManagerEvent)
    ensures
        event == completed_event(operation_id, completion@),
{
    match completion {
        OperationCompletion::Succeeded => NodeManagerEvent::OperationSucceeded { operation_id },
        OperationCompletion::Failed(_) => NodeManagerEvent::OperationFailed { operation_id },
        OperationCompletion::Cancelled => NodeManagerEvent::OperationCancelled { operation_id },
    }
}

/// The failure that one completion names.
pub open spec fn completed_failure(completion: OperationCompletionView) -> Option<
    FailureDescriptionView,
> {
    match completion {
        OperationCompletionView::Failed(failure) => Some(failure),
        _ => None,
    }
}

/// States from which one completion may follow.
pub open spec fn completion_allowed(
    current: OperationState,
    completion: OperationCompletionView,
) -> bool {
    current == OperationState::Running || (current == OperationState::Pending && !(completion
        is Succeeded))
}

/// What completing one operation does: the same end is saved again, another end is refused.
pub open spec fn operation_completing(
    idempotency_key: Seq<char>,
    operation_id: OperationId,
    current: OperationView,
    expected_revision: u64,
    completion: OperationCompletionView,
    completed_at: UnixMilliseconds,
) -> Result<NodeCommitView<OperationView>, NodeManagerError> {
    operation_step(
        idempotency_key,
        if current.state == completed_state(completion) {
            Ok(current)
        } else if !completion_allowed(current.state, completion) {
            Err(operation_refused(operation_id, current.state, "complete"))
        } else {
            operation_built(
                operation_id,
                current.kind,
                current.target,
                completed_state(completion),
                completed_failure(completion),
                Some(completed_at),
                current.timestamps.created_at,
                completed_at,
            )
        },
        expected_revision,
        completed_event(operation_id, completion),
    )
}

impl NodeManager {
    /// Completes one pending or running operation with an explicit terminal result.
    pub fn complete_operation(
        idempotency_key: &str,
        operation_id: &OperationId,
        current: Operation,
        expected_revision: u64,
        completion: OperationCompletion,
        completed_at: UnixMilliseconds,
    ) -> (commit: Result<NodeCommit<Operation>, NodeManagerError>)
        ensures
            outcome(commit) == operation_completing(
                idempotency_key@,
                *operation_id,
                current@,
                expected_revision,
                completion@,
                completed_at,
            ),
    {
        let desired_state = completion_state(&completion);
        let event = completion_event(*operation_id, &completion);
        let operation = if current.state == desired_state {
            current
        } else {
            let mut allowed: Vec<OperationState> = Vec::new();
            allowed.push(OperationState::Running);
            match &completion {
                OperationCompletion::Succeeded => {},
                OperationCompletion::Failed(_) | OperationCompletion::Cancelled => {
                    allowed.push(OperationState::Pending);
                },
            }
            proof {
                assert(allowed@[0] == OperationState::Running);
                if !(completion@ is Succeeded) {
                    assert(allowed@[1] == OperationState::Pending);
                }
                assert(allowed@.contains(current.state) <==> completion_allowed(
                    current.state,
                    completion@,
                ));
            }
            require_operation_state(operation_id, current.state, &allowed, "complete")?;
            let failure = match completion {
                OperationCompletion::Failed(failure) => Some(failure),
                OperationCompletion::Succeeded | OperationCompletion::Cancelled => None,
            };
            build_operation(
                *operation_id,
                current.kind,
                current.target,
                desired_state,
                failure,
                Some(completed_at),
                current.timestamps.created_at,
                completed_at,
            )?
        };
        save_operation(
            idempotency_key,
            operation,
            DatabaseRevision::Exact(expected_revision),
            event,
        )
    }
}

/// Returns one committed operation from the answer to its transaction.
pub fn operation_committed(
    commit: NodeCommit<Operation>,
    result: Result<DatabaseTransactionResult, DatabaseError>,
) -> (change: Result<NodeManagerChange<Operation>, NodeManagerError>)
    ensures
        outcome(change) == entity_committed(
            commit@,
            DatabaseCollection::Operations,
            commit@.value.operation_id.text(),
            outcome(result),
        ),
{
    let identifier = commit.value.operation_id.to_text();
    commit_entity(commit, DatabaseCollection::Operations, identifier.as_str(), result)
}

/// An operation that has ended never changes its end.
pub proof fn law_ended_operation_is_final(
    idempotency_key: Seq<char>,
    operation_id: OperationId,
    current: OperationView,
    expected_revision: u64,
    completion: OperationCompletionView,
    at: UnixMilliseconds,
)
    requires
        crate::entity::operation_ended(current.state),
    ensures
        operation_starting(idempotency_key, operation_id, current, expected_revision, at) is Err,
        operation_completing(
            idempotency_key,
            operation_id,
            current,
            expected_revision,
            completion,
            at,
        ) matches Ok(commit) ==> commit.value == current,
{
}

// ---------------------------------------------------------------------------
// Opening
// ---------------------------------------------------------------------------

/// One manager-owned replay identity, bounded by the database.
pub open spec fn scoped_key(idempotency_key: Seq<char>, scope: Seq<char>) -> Result<
    Seq<char>,
    NodeManagerError,
> {
    let key = idempotency_key + ":"@ + scope;
    if byte_length(key) > 255 {
        Err(
            NodeManagerError::CorruptState {
                reason: "scoped idempotency key exceeds the database bound",
            },
        )
    } else {
        Ok(key)
    }
}

/// Returns one bounded manager-owned idempotency identity.
pub fn scoped_idempotency_key(idempotency_key: &str, scope: &'static str) -> (key: Result<
    String,
    NodeManagerError,
>)
    ensures
        outcome(key) == scoped_key(idempotency_key@, scope@),
{
    let value = idempotency_key.to_owned().concat(":").concat(scope);
    if text_bytes(value.as_str()) > 255 {
        return Err(
            NodeManagerError::CorruptState {
                reason: "scoped idempotency key exceeds the database bound",
            },
        );
    }
    Ok(value)
}

/// What the singleton local identity needs before the node is registered.
#[derive(Debug)]
pub enum IdentityStep {
    Verified,
    Save { idempotency_key: String, identity: NodeIdentity },
}

/// What one [`IdentityStep`] holds.
pub enum IdentityStepView {
    Verified,
    Save { idempotency_key: Seq<char>, identity: NodeIdentity },
}

impl View for IdentityStep {
    type V = IdentityStepView;

    open spec fn view(&self) -> IdentityStepView {
        match self {
            IdentityStep::Verified => IdentityStepView::Verified,
            IdentityStep::Save { idempotency_key, identity } => IdentityStepView::Save {
                idempotency_key: idempotency_key@,
                identity: *identity,
            },
        }
    }
}

/// The identity that is stored must be the given one; a missing one is saved.
pub open spec fn identity_ensured(
    stored: Result<DatabaseResultView<NodeIdentity>, DatabaseError>,
    identity: NodeIdentity,
    idempotency_key: Seq<char>,
) -> Result<IdentityStepView, NodeManagerError> {
    match optional_record(stored, "local identity query returned a collection") {
        Err(error) => Err(error),
        Ok(Some(stored)) => if stored.value != identity {
            Err(NodeManagerError::IdentityMismatch)
        } else {
            Ok(IdentityStepView::Verified)
        },
        Ok(None) => match scoped_key(idempotency_key, "identity"@) {
            Err(error) => Err(error),
            Ok(key) => Ok(IdentityStepView::Save { idempotency_key: key, identity }),
        },
    }
}

/// Creates or verifies the singleton local node identity before node registration.
pub fn ensure_local_identity(
    stored: Result<DatabaseResult<NodeIdentity>, DatabaseError>,
    identity: &NodeIdentity,
    idempotency_key: &str,
) -> (step: Result<IdentityStep, NodeManagerError>)
    ensures
        outcome(step) == identity_ensured(outcome(stored), *identity, idempotency_key@),
{
    match record_if_available(stored, "local identity query returned a collection")? {
        Some(stored) => {
            if stored.value != *identity {
                return Err(NodeManagerError::IdentityMismatch);
            }
            Ok(IdentityStep::Verified)
        },
        None => {
            let key = scoped_idempotency_key(idempotency_key, "identity")?;
            Ok(IdentityStep::Save { idempotency_key: key, identity: *identity })
        },
    }
}

/// Owns the local node identity.
#[derive(Clone, Copy, Debug)]
pub struct NodeManager {
    pub local_node_id: NodeId,
}

/// What loading one initialized local identity gives.
pub open spec fn manager_loaded(
    identity: NodeIdentity,
    node: Result<DatabaseResultView<NodeView>, DatabaseError>,
) -> Result<NodeId, NodeManagerError> {
    match one_record(node, "local node query returned a collection") {
        Err(error) => Err(error),
        Ok(node) => if node.value.identity != identity {
            Err(NodeManagerError::IdentityMismatch)
        } else {
            Ok(identity.node_id)
        },
    }
}

/// What opening one local node does: a known node is observed, a missing one is created.
pub open spec fn node_opening(
    initial_node: NodeView,
    idempotency_key: Seq<char>,
    existing: Result<DatabaseResultView<NodeView>, DatabaseError>,
) -> Result<NodeStepView<NodeView>, NodeManagerError> {
    match optional_record(existing, "single-node query returned a collection") {
        Err(error) => Err(error),
        Ok(Some(stored)) => if stored.value.identity != initial_node.identity {
            Err(NodeManagerError::IdentityMismatch)
        } else {
            Ok(NodeStepView::Observed(observed_change(stored.value, stored.revision)))
        },
        Ok(None) => Ok(
            NodeStepView::Commit(
                node_commit(
                    idempotency_key,
                    initial_node,
                    DatabaseRevision::Missing,
                    NodeManagerEvent::NodeInitialized { node_id: initial_node.identity.node_id },
                ),
            ),
        ),
    }
}

impl NodeManager {
    /// Opens one node owner from an already-initialized local identity.
    pub fn load(
        identity: &NodeIdentity,
        node: Result<DatabaseResult<Node>, DatabaseError>,
    ) -> (manager: Result<NodeManager, NodeManagerError>)
        ensures
            manager_loaded(*identity, outcome(node)) == match manager {
                Ok(manager) => Ok::<NodeId, NodeManagerError>(manager.local_node_id),
                Err(error) => Err(error),
            },
    {
        let node = single_record(node, "local node query returned a collection")?;
        if node.value.identity != *identity {
            return Err(NodeManagerError::IdentityMismatch);
        }
        Ok(NodeManager { local_node_id: identity.node_id })
    }

    /// Opens one node owner and decides how its local record comes to exist exactly once.
    pub fn open(
        initial_node: Node,
        idempotency_key: &str,
        existing: Result<DatabaseResult<Node>, DatabaseError>,
    ) -> (opened: Result<(NodeManager, NodeStep<Node>), NodeManagerError>)
        ensures
            node_opening(initial_node@, idempotency_key@, outcome(existing)) == match opened {
                Ok(opened) => Ok::<NodeStepView<NodeView>, NodeManagerError>(opened.1@),
                Err(error) => Err(error),
            },
            opened matches Ok(opened) ==> opened.0.local_node_id == initial_node@.identity.node_id,
    {
        let manager = NodeManager { local_node_id: initial_node.identity.node_id };
        match record_if_available(existing, "single-node query returned a collection")? {
            Some(stored) => {
                if stored.value.identity != initial_node.identity {
                    return Err(NodeManagerError::IdentityMismatch);
                }
                Ok(
                    (
                        manager,
                        NodeStep::Observed(
                            NodeManagerChange::observed(stored.value, stored.revision),
                        ),
                    ),
                )
            },
            None => {
                let commit = save_node(
                    idempotency_key,
                    initial_node,
                    DatabaseRevision::Missing,
                    NodeManagerEvent::NodeInitialized { node_id: manager.local_node_id },
                )?;
                Ok((manager, NodeStep::Commit(commit)))
            },
        }
    }

    /// Returns the exact local node identity owned by this manager.
    pub fn local_node_id(&self) -> (node_id: NodeId)
        ensures
            node_id == self.local_node_id,
    {
        self.local_node_id
    }

    /// Returns one committed node snapshot and its optimistic revision.
    pub fn node(result: Result<DatabaseResult<Node>, DatabaseError>) -> (change: Result<
        NodeManagerChange<Node>,
        NodeManagerError,
    >)
        ensures
            outcome(change) == match one_record(
                outcome(result),
                "single-node query returned a collection",
            ) {
                Ok(stored) => Ok(observed_change(stored.value, stored.revision)),
                Err(error) => Err(error),
            },
    {
        let stored = single_record(result, "single-node query returned a collection")?;
        Ok(NodeManagerChange::observed(stored.value, stored.revision))
    }

    /// Returns every committed node snapshot in canonical identity order.
    pub fn nodes(result: Result<DatabaseResult<Node>, DatabaseError>) -> (nodes: Result<
        Vec<Node>,
        NodeManagerError,
    >)
        ensures
            listed(nodes) == match all_records(
                outcome(result),
                "node collection query returned one record",
            ) {
                Ok(stored) => Ok(record_values(stored)),
                Err(error) => Err(error),
            },
    {
        let stored = collection_records(result, "node collection query returned one record")?;
        Ok(values_of(stored))
    }

    /// Returns the one active main authority and its optimistic revision.
    pub fn main_node(result: Result<DatabaseResult<Node>, DatabaseError>) -> (change: Result<
        NodeManagerChange<Node>,
        NodeManagerError,
    >)
        ensures
            outcome(change) == match all_records(
                outcome(result),
                "node collection query returned one record",
            ) {
                Err(error) => Err(error),
                Ok(stored) => match sole_active_main(stored) {
                    Err(error) => Err(error),
                    Ok(main) => Ok(observed_change(main.value, main.revision)),
                },
            },
    {
        let stored = collection_records(result, "node collection query returned one record")?;
        let main = active_main_with_revision(&stored)?;
        Ok(NodeManagerChange::observed(main.value, main.revision))
    }

    /// Returns every durable logical model service in stable identity order.
    pub fn model_services(
        result: Result<DatabaseResult<ModelService>, DatabaseError>,
    ) -> (services: Result<
        Vec<ModelService>,
        NodeManagerError,
    >)
        ensures
            listed(services) == match all_records(
                outcome(result),
                "model service collection query returned one record",
            ) {
                Ok(stored) => Ok(record_values(stored)),
                Err(error) => Err(error),
            },
    {
        let stored = collection_records(
            result,
            "model service collection query returned one record",
        )?;
        Ok(values_of(stored))
    }

    /// Returns one durable logical model service and its optimistic revision.
    pub fn model_service(
        result: Result<DatabaseResult<ModelService>, DatabaseError>,
    ) -> (change: Result<
        NodeManagerChange<ModelService>,
        NodeManagerError,
    >)
        ensures
            outcome(change) == match one_record(
                outcome(result),
                "model service query returned a collection",
            ) {
                Ok(stored) => Ok(observed_change(stored.value, stored.revision)),
                Err(error) => Err(error),
            },
    {
        let stored = single_record(result, "model service query returned a collection")?;
        Ok(NodeManagerChange::observed(stored.value, stored.revision))
    }

    /// Returns the local node from the answer to its query.
    pub fn local_node(result: Result<DatabaseResult<Node>, DatabaseError>) -> (node: Result<
        Node,
        NodeManagerError,
    >)
        ensures
            outcome(node) == match one_record(
                outcome(result),
                "single-node query returned a collection",
            ) {
                Err(error) => Err(error),
                Ok(stored) => Ok(stored.value),
            },
    {
        let change = NodeManager::node(result)?;
        Ok(change.value)
    }

    /// Returns one operation from the answer to its query.
    pub fn operation(
        result: Result<DatabaseResult<Operation>, DatabaseError>,
    ) -> (operation: Result<
        Operation,
        NodeManagerError,
    >)
        ensures
            outcome(operation) == match one_record(
                outcome(result),
                "single-operation query returned a collection",
            ) {
                Err(error) => Err(error),
                Ok(stored) => Ok(stored.value),
            },
    {
        let change = NodeManager::operation_change(result)?;
        Ok(change.value)
    }

    /// Returns one committed operation together with its optimistic revision.
    pub fn operation_change(
        result: Result<DatabaseResult<Operation>, DatabaseError>,
    ) -> (change: Result<
        NodeManagerChange<Operation>,
        NodeManagerError,
    >)
        ensures
            outcome(change) == match one_record(
                outcome(result),
                "single-operation query returned a collection",
            ) {
                Ok(stored) => Ok(observed_change(stored.value, stored.revision)),
                Err(error) => Err(error),
            },
    {
        let stored = single_record(result, "single-operation query returned a collection")?;
        Ok(NodeManagerChange::observed(stored.value, stored.revision))
    }

    /// Returns every committed operation snapshot in canonical identity order.
    pub fn operations(
        result: Result<DatabaseResult<Operation>, DatabaseError>,
    ) -> (operations: Result<
        Vec<Operation>,
        NodeManagerError,
    >)
        ensures
            listed(operations) == match all_records(
                outcome(result),
                "operation collection query returned one record",
            ) {
                Ok(stored) => Ok(record_values(stored)),
                Err(error) => Err(error),
            },
    {
        let stored = collection_records(result, "operation collection query returned one record")?;
        Ok(values_of(stored))
    }
}

} // verus!
