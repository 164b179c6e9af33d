//! What the node database answers, as plain values.

use vstd::prelude::*;

use crate::identity::{InterfaceError, NodeId, OperationId, Sha256Digest};
use crate::sequence::views;

verus! {

/// One record collection of the node database.
#[derive(Clone, Copy, Debug, PartialEq, Eq, Structural)]
pub enum DatabaseCollection {
    LocalNode,
    Nodes,
    HardwareObservations,
    Services,
    Operations,
    Outbox,
    ModelLifecycles,
    PeerCredentials,
}

/// The key of one record.
#[derive(Clone, Copy, Debug, PartialEq, Eq, Structural)]
pub enum RecordIdentifier {
    LocalNode,
    Entity(u128),
    Digest(Sha256Digest),
}

/// The revision that one write expects.
#[derive(Clone, Copy, Debug, PartialEq, Eq, Structural)]
pub enum DatabaseRevision {
    Missing,
    Exact(u64),
}

/// Whether one command created its commit or found it already there.
#[derive(Clone, Copy, Debug, PartialEq, Eq, Structural)]
pub enum DatabaseCommitDisposition {
    Applied,
    Replayed,
}

/// What one commit did to its record.
#[derive(Clone, Copy, Debug, PartialEq, Eq, Structural)]
pub enum DatabaseMutation {
    Created,
    Updated,
    Deleted,
}

/// One failure of the node database.
#[derive(Clone, Copy, Debug, PartialEq, Eq, Structural)]
pub enum DatabaseError {
    NotFound { collection: DatabaseCollection, identifier: RecordIdentifier },
    Conflict {
        collection: DatabaseCollection,
        identifier: RecordIdentifier,
        expected: DatabaseRevision,
        observed: Option<u64>,
    },
    IdempotencyConflict,
    Corrupt,
    InvalidInput,
    Unavailable,
    Closed,
}

/// One stored record with its revision.
#[derive(Debug)]
pub struct Stored<R> {
    pub value: R,
    pub revision: u64,
}

/// What one query returned: the record of a key, or a collection.
#[derive(Debug)]
pub enum DatabaseResult<R> {
    Record(Stored<R>),
    Records(Vec<Stored<R>>),
}

/// What one [`Stored`] holds.
pub struct StoredView<V> {
    pub value: V,
    pub revision: u64,
}

impl<R: View> View for Stored<R> {
    type V = StoredView<R::V>;

    open spec fn view(&self) -> StoredView<R::V> {
        StoredView { value: self.value@, revision: self.revision }
    }
}

/// What one [`DatabaseResult`] holds.
pub enum DatabaseResultView<V> {
    Record(StoredView<V>),
    Records(Seq<StoredView<V>>),
}

impl<R: View> View for DatabaseResult<R> {
    type V = DatabaseResultView<R::V>;

    open spec fn view(&self) -> DatabaseResultView<R::V> {
        match self {
            DatabaseResult::Record(stored) => DatabaseResultView::Record(stored@),
            DatabaseResult::Records(stored) => DatabaseResultView::Records(views(stored@)),
        }
    }
}

/// One committed record change.
#[derive(Debug)]
pub struct DatabaseCommit {
    pub idempotency_key: String,
    pub collection: DatabaseCollection,
    pub identifier: String,
    pub mutation: DatabaseMutation,
    pub revision: u64,
}

/// What one [`DatabaseCommit`] holds.
pub struct DatabaseCommitView {
    pub idempotency_key: Seq<char>,
    pub collection: DatabaseCollection,
    pub identifier: Seq<char>,
    pub mutation: DatabaseMutation,
    pub revision: u64,
}

impl View for DatabaseCommit {
    type V = DatabaseCommitView;

    open spec fn view(&self) -> DatabaseCommitView {
        DatabaseCommitView {
            idempotency_key: self.idempotency_key@,
            collection: self.collection,
            identifier: self.identifier@,
            mutation: self.mutation,
            revision: self.revision,
        }
    }
}

/// The answer to one single-record write.
#[derive(Debug)]
pub struct DatabaseWriteResult {
    pub commit: DatabaseCommit,
    pub disposition: DatabaseCommitDisposition,
}

/// What one [`DatabaseWriteResult`] holds.
pub struct DatabaseWriteResultView {
    pub commit: DatabaseCommitView,
    pub disposition: DatabaseCommitDisposition,
}

impl View for DatabaseWriteResult {
    type V = DatabaseWriteResultView;

    open spec fn view(&self) -> DatabaseWriteResultView {
        DatabaseWriteResultView { commit: self.commit@, disposition: self.disposition }
    }
}

/// The answer to one atomic transaction, one commit for each of its changes.
#[derive(Debug)]
pub struct DatabaseTransactionResult {
    pub commits: Vec<DatabaseCommit>,
    pub disposition: DatabaseCommitDisposition,
}

/// What one [`DatabaseTransactionResult`] holds.
pub struct DatabaseTransactionResultView {
    pub commits: Seq<DatabaseCommitView>,
    pub disposition: DatabaseCommitDisposition,
}

impl View for DatabaseTransactionResult {
    type V = DatabaseTransactionResultView;

    open spec fn view(&self) -> DatabaseTransactionResultView {
        DatabaseTransactionResultView {
            commits: views(self.commits@),
            disposition: self.disposition,
        }
    }
}

/// Describes one stable node orchestration failure.
#[derive(Clone, Copy, Debug)]
pub enum NodeManagerError {
    Database(DatabaseError),
    Interface(InterfaceError),
    IdentityMismatch,
    DatabaseInUse,
    NotMain,
    InvalidNodeEnrollment { reason: &'static str },
    NodeIdentityConflict { reason: &'static str },
    InvalidNodeTransition { node_id: NodeId, current: &'static str, action: &'static str },
    InvalidLocalRoleTransition { reason: &'static str },
    InvalidHardwareObservation { reason: &'static str },
    InvalidModelService { reason: &'static str },
    CorruptState { reason: &'static str },
    InvalidOperationTransition {
        operation_id: OperationId,
        current: &'static str,
        action: &'static str,
    },
}

impl NodeManagerError {
    /// The text of the failure; `detail` is the text of a wrapped database or interface failure.
    pub open spec fn text(self, detail: Seq<char>) -> Seq<char> {
        match self {
            NodeManagerError::Database(_) => detail,
            NodeManagerError::Interface(_) => detail,
            NodeManagerError::IdentityMismatch => {
                "node identity differs from committed local identity"@
            },
            NodeManagerError::DatabaseInUse => "node database is still owned by another manager"@,
            NodeManagerError::NotMain => "node mutation requires the active main node"@,
            NodeManagerError::InvalidNodeEnrollment { reason } => "node enrollment is invalid: "@
                + reason@,
            NodeManagerError::NodeIdentityConflict { reason } => {
                "node identity conflicts with committed state: "@ + reason@
            },
            NodeManagerError::InvalidNodeTransition { node_id, current, action } => {
                "node transition is invalid for "@ + node_id.text() + ": cannot "@ + action@
                    + " from "@ + current@
            },
            NodeManagerError::InvalidLocalRoleTransition { reason } => {
                "local node role transition is invalid: "@ + reason@
            },
            NodeManagerError::InvalidHardwareObservation { reason } => {
                "hardware observation is invalid: "@ + reason@
            },
            NodeManagerError::InvalidModelService { reason } => "model service is invalid: "@
                + reason@,
            NodeManagerError::CorruptState { reason } => "node state is corrupt: "@ + reason@,
            NodeManagerError::InvalidOperationTransition { operation_id, current, action } => {
                "operation transition is invalid for "@ + operation_id.text() + ": cannot "@
                    + action@ + " from "@ + current@
            },
        }
    }

    /// Presents a stable failure without exposing persisted values or credentials.
    pub fn message(&self, detail: &str) -> (text: String)
        ensures
            text@ == self.text(detail@),
    {
        match self {
            NodeManagerError::Database(_) => detail.to_owned(),
            NodeManagerError::Interface(_) => detail.to_owned(),
            NodeManagerError::IdentityMismatch => {
                "node identity differs from committed local identity".to_owned()
            },
            NodeManagerError::DatabaseInUse => {
                "node database is still owned by another manager".to_owned()
            },
            NodeManagerError::NotMain => "node mutation requires the active main node".to_owned(),
            NodeManagerError::InvalidNodeEnrollment { reason } => {
                "node enrollment is invalid: ".to_owned().concat(reason)
            },
            NodeManagerError::NodeIdentityConflict { reason } => {
                "node identity conflicts with committed state: ".to_owned().concat(reason)
            },
            NodeManagerError::InvalidNodeTransition { node_id, current, action } => {
                "node transition is invalid for ".to_owned().concat(
                    node_id.to_text().as_str(),
                ).concat(": cannot ").concat(action).concat(" from ").concat(current)
            },
            NodeManagerError::InvalidLocalRoleTransition { reason } => {
                "local node role transition is invalid: ".to_owned().concat(reason)
            },
            NodeManagerError::InvalidHardwareObservation { reason } => {
                "hardware observation is invalid: ".to_owned().concat(reason)
            },
            NodeManagerError::InvalidModelService { reason } => {
                "model service is invalid: ".to_owned().concat(reason)
            },
            NodeManagerError::CorruptState { reason } => {
                "node state is corrupt: ".to_owned().concat(reason)
            },
            NodeManagerError::InvalidOperationTransition { operation_id, current, action } => {
                "operation transition is invalid for ".to_owned().concat(
                    operation_id.to_text().as_str(),
                ).concat(": cannot ").concat(action).concat(" from ").concat(current)
            },
        }
    }
}

} // verus!
