//! Commands, journals and projections of the model-service lifecycle.

use vstd::prelude::*;

use crate::digest::{digest_of, sha256_digest};
use crate::entity::{
    EvidenceLabel, ModelService, ModelServiceDesiredState, ModelServiceView, Operation,
    OperationKind, OperationView, PlacementError, PlacementGroupState, PlacementLogBatch,
    PlacementLogBatchView, PlacementLogCursor, PlacementRecord, PlacementRecordView,
    RuntimeError, RuntimeInstallation, RuntimeInstallationView,
};
use crate::identity::{
    clone_ids, distinct_ids, law_sorted_ids, same_ids, sort_ids, sorted_ids, strictly_increasing,
    Id, LogicalModelName, ModelServiceId, NodeId, OperationId, PlacementGroupId,
    PlacementGroupKind, RuntimeCandidateId, RuntimeInstallationId, RuntimeSource, RuntimeVersion,
    TargetId, TechnicalName, TimeSpan, UnixMilliseconds,
};
use crate::sequence::{
    copy_all, copy_optional, outcome, same_all, same_optional, viewed, views, Keyed, Valued,
};
use crate::text::{append_be_bytes, be_bytes};

verus! {

/// The largest number of placement groups in one command.
pub const MAX_INSTALL_GROUPS: usize = 128;

/// The largest number of nodes in one placement group.
pub const MAX_NODES_PER_GROUP: usize = 64;

const MAXIMUM_RUNTIME_LOG_LINES: u32 = 10_000;

const MAXIMUM_RUNTIME_LOG_BYTES: usize = 524_288;

const MAXIMUM_RUNTIME_LOG_WAIT_NANOSECONDS: u128 = 1_000_000_000;

const NANOSECONDS_PER_MILLISECOND: u128 = 1_000_000;

// ---------------------------------------------------------------------------
// Planned identities
// ---------------------------------------------------------------------------

/// The bytes from which one planned identity is derived.
pub open spec fn planned_message(domain: Seq<char>, operation_id: OperationId, index: nat) -> Seq<
    u8,
> {
    vstd::utf8::encode_utf8(domain) + vstd::utf8::encode_utf8(operation_id.text()) + be_bytes(
        index,
        8,
    )
}

/// The identity that the first half of one digest spells.
pub open spec fn planned_id(
    domain: Seq<char>,
    operation_id: OperationId,
    index: nat,
) -> PlacementGroupId {
    Id {
        value: digest_of(planned_message(domain, operation_id, index)).high,
        kind: PlacementGroupKind {  },
    }
}

/// The placement group that position `index` of one command stages.
pub open spec fn planned_placement_group(
    operation_id: OperationId,
    index: nat,
) -> PlacementGroupId {
    planned_id("li_node_model_placement_group_v1\0"@, operation_id, index)
}

/// The placement group that restores position `index` of one failed command.
pub open spec fn planned_restoration_group(
    operation_id: OperationId,
    index: nat,
) -> PlacementGroupId {
    planned_id("li_node_model_restoration_group_v1\0"@, operation_id, index)
}

/// Every planned group of one command in position order.
pub open spec fn planned_groups(operation_id: OperationId, count: nat) -> Seq<PlacementGroupId> {
    Seq::new(count, |i: int| planned_placement_group(operation_id, i as nat))
}

fn planned_group_id(
    domain: &str,
    operation_id: &OperationId,
    index: usize,
) -> (id: PlacementGroupId)
    ensures
        id == planned_id(domain@, *operation_id, index as nat),
{
    let mut message: Vec<u8> = Vec::new();
    message.extend_from_slice(domain.as_bytes());
    message.extend_from_slice(operation_id.to_text().as_str().as_bytes());
    append_be_bytes(&mut message, index as u64, 8);
    assert(message@ =~= planned_message(domain@, *operation_id, index as nat));
    Id { value: sha256_digest(message.as_slice()).high, kind: PlacementGroupKind {  } }
}

/// Derives one opaque stable placement-group identity from its durable command position.
pub fn planned_placement_group_id(
    operation_id: &OperationId,
    group_index: usize,
) -> (id: PlacementGroupId)
    ensures
        id == planned_placement_group(*operation_id, group_index as nat),
{
    planned_group_id("li_node_model_placement_group_v1\0", operation_id, group_index)
}

/// Derives one deterministic restoration identity distinct from the command's target group.
pub fn planned_restoration_group_id(
    operation_id: &OperationId,
    group_index: usize,
) -> (id: PlacementGroupId)
    ensures
        id == planned_restoration_group(*operation_id, group_index as nat),
{
    planned_group_id("li_node_model_restoration_group_v1\0", operation_id, group_index)
}

/// Derives every planned group identity of one command.
pub fn planned_placement_group_ids(
    operation_id: &OperationId,
    count: usize,
) -> (ids: Vec<PlacementGroupId>)
    ensures
        ids@ == planned_groups(*operation_id, count as nat),
{
    let mut ids: Vec<PlacementGroupId> = Vec::new();
    let mut i: usize = 0;
    while i < count
        invariant
            i <= count,
            ids@ == planned_groups(*operation_id, i as nat),
        decreases count - i,
    {
        ids.push(planned_placement_group_id(operation_id, i));
        i += 1;
        assert(ids@ =~= planned_groups(*operation_id, i as nat));
    }
    ids
}

// ---------------------------------------------------------------------------
// Actions and dispositions
// ---------------------------------------------------------------------------

/// Identifies the exact model-service lifecycle owned by one durable command.
#[derive(Clone, Copy, Debug, PartialEq, Eq, Structural)]
pub enum NodeModelAction {
    Install,
    Update,
    Pause,
    Resume,
    Restart,
    Recover,
    Remove,
    Rollback,
}

impl NodeModelAction {
    /// The stable name.
    pub open spec fn name(self) -> Seq<char> {
        match self {
            NodeModelAction::Install => "install"@,
            NodeModelAction::Update => "update"@,
            NodeModelAction::Pause => "pause"@,
            NodeModelAction::Resume => "resume"@,
            NodeModelAction::Restart => "restart"@,
            NodeModelAction::Recover => "recover"@,
            NodeModelAction::Remove => "remove"@,
            NodeModelAction::Rollback => "rollback"@,
        }
    }

    /// Returns the stable name.
    pub fn as_str(self) -> (text: &'static str)
        ensures
            text@ == self.name(),
    {
        match self {
            NodeModelAction::Install => "install",
            NodeModelAction::Update => "update",
            NodeModelAction::Pause => "pause",
            NodeModelAction::Resume => "resume",
            NodeModelAction::Restart => "restart",
            NodeModelAction::Recover => "recover",
            NodeModelAction::Remove => "remove",
            NodeModelAction::Rollback => "rollback",
        }
    }

    /// The user-visible kind of operation.
    pub open spec fn kind(self) -> OperationKind {
        match self {
            NodeModelAction::Install => OperationKind::Install,
            NodeModelAction::Update => OperationKind::Update,
            NodeModelAction::Pause => OperationKind::Stop,
            NodeModelAction::Resume => OperationKind::Start,
            NodeModelAction::Restart => OperationKind::Restart,
            NodeModelAction::Recover => OperationKind::Recover,
            NodeModelAction::Rollback => OperationKind::Recover,
            NodeModelAction::Remove => OperationKind::Remove,
        }
    }

    /// Returns the user-visible operation kind for this model lifecycle.
    pub fn operation_kind(self) -> (kind: OperationKind)
        ensures
            kind == self.kind(),
    {
        match self {
            NodeModelAction::Install => OperationKind::Install,
            NodeModelAction::Update => OperationKind::Update,
            NodeModelAction::Pause => OperationKind::Stop,
            NodeModelAction::Resume => OperationKind::Start,
            NodeModelAction::Restart => OperationKind::Restart,
            NodeModelAction::Recover => OperationKind::Recover,
            NodeModelAction::Rollback => OperationKind::Recover,
            NodeModelAction::Remove => OperationKind::Remove,
        }
    }

    /// Actions that stage groups of their own.
    pub open spec fn stages(self) -> bool {
        self == NodeModelAction::Install || self == NodeModelAction::Update || self
            == NodeModelAction::Rollback
    }

    /// Returns whether the action stages groups of its own.
    pub fn stages_groups(self) -> (stages: bool)
        ensures
            stages == self.stages(),
    {
        matches!(self, NodeModelAction::Install | NodeModelAction::Update | NodeModelAction::Rollback)
    }
}

/// Describes whether one signed runtime update would change an installed service.
#[derive(Clone, Copy, Debug, PartialEq, Eq, Structural)]
pub enum NodeModelUpdateDisposition {
    Current,
    UpdateAvailable,
    Updated,
}

impl NodeModelUpdateDisposition {
    /// The stable name.
    pub open spec fn name(self) -> Seq<char> {
        match self {
            NodeModelUpdateDisposition::Current => "current"@,
            NodeModelUpdateDisposition::UpdateAvailable => "update_available"@,
            NodeModelUpdateDisposition::Updated => "updated"@,
        }
    }

    /// Returns the stable name.
    pub fn as_str(self) -> (text: &'static str)
        ensures
            text@ == self.name(),
    {
        match self {
            NodeModelUpdateDisposition::Current => "current",
            NodeModelUpdateDisposition::UpdateAvailable => "update_available",
            NodeModelUpdateDisposition::Updated => "updated",
        }
    }
}

/// Selects whether service removal also retires its unreferenced runtime installations.
#[derive(Clone, Copy, Debug, PartialEq, Eq, Structural)]
pub enum NodeModelRemovalRetention {
    RemoveUnreferencedRuntimes,
    PreserveModels,
}

impl NodeModelRemovalRetention {
    /// The stable name.
    pub open spec fn name(self) -> Seq<char> {
        match self {
            NodeModelRemovalRetention::RemoveUnreferencedRuntimes => "remove_unreferenced_runtimes"@,
            NodeModelRemovalRetention::PreserveModels => "preserve_models"@,
        }
    }

    /// Returns the stable name.
    pub fn as_str(self) -> (text: &'static str)
        ensures
            text@ == self.name(),
    {
        match self {
            NodeModelRemovalRetention::RemoveUnreferencedRuntimes => "remove_unreferenced_runtimes",
            NodeModelRemovalRetention::PreserveModels => "preserve_models",
        }
    }
}

/// Identifies a pending, created, reused, or ambiguously owned installation acquisition.
#[derive(Clone, Copy, Debug, PartialEq, Eq, Structural)]
pub enum NodeModelRuntimeDisposition {
    InstallPending,
    Created,
    Reused,
    OwnershipUnknown,
}

impl NodeModelRuntimeDisposition {
    /// The stable name.
    pub open spec fn name(self) -> Seq<char> {
        match self {
            NodeModelRuntimeDisposition::InstallPending => "install_pending"@,
            NodeModelRuntimeDisposition::Created => "created"@,
            NodeModelRuntimeDisposition::Reused => "reused"@,
            NodeModelRuntimeDisposition::OwnershipUnknown => "ownership_unknown"@,
        }
    }

    /// Returns the stable name.
    pub fn as_str(self) -> (text: &'static str)
        ensures
            text@ == self.name(),
    {
        match self {
            NodeModelRuntimeDisposition::InstallPending => "install_pending",
            NodeModelRuntimeDisposition::Created => "created",
            NodeModelRuntimeDisposition::Reused => "reused",
            NodeModelRuntimeDisposition::OwnershipUnknown => "ownership_unknown",
        }
    }
}

/// Identifies the durable cross-manager lifecycle state.
#[derive(Clone, Copy, Debug, PartialEq, Eq, Structural)]
pub enum NodeModelJournalState {
    Prepared,
    Executing,
    Compensating,
    CleanupPending,
    Succeeded,
    RolledBack,
    Failed,
}

impl NodeModelJournalState {
    /// The stable name.
    pub open spec fn name(self) -> Seq<char> {
        match self {
            NodeModelJournalState::Prepared => "prepared"@,
            NodeModelJournalState::Executing => "executing"@,
            NodeModelJournalState::Compensating => "compensating"@,
            NodeModelJournalState::CleanupPending => "cleanup_pending"@,
            NodeModelJournalState::Succeeded => "succeeded"@,
            NodeModelJournalState::RolledBack => "rolled_back"@,
            NodeModelJournalState::Failed => "failed"@,
        }
    }

    /// Returns the stable name.
    pub fn as_str(self) -> (text: &'static str)
        ensures
            text@ == self.name(),
    {
        match self {
            NodeModelJournalState::Prepared => "prepared",
            NodeModelJournalState::Executing => "executing",
            NodeModelJournalState::Compensating => "compensating",
            NodeModelJournalState::CleanupPending => "cleanup_pending",
            NodeModelJournalState::Succeeded => "succeeded",
            NodeModelJournalState::RolledBack => "rolled_back",
            NodeModelJournalState::Failed => "failed",
        }
    }

    /// States that need no further automatic progress.
    pub open spec fn ended(self) -> bool {
        self == NodeModelJournalState::Succeeded || self == NodeModelJournalState::RolledBack
            || self == NodeModelJournalState::Failed
    }

    /// Returns whether no further automatic lifecycle progress is required.
    pub fn is_terminal(self) -> (terminal: bool)
        ensures
            terminal == self.ended(),
    {
        matches!(
            self,
            NodeModelJournalState::Succeeded | NodeModelJournalState::RolledBack | NodeModelJournalState::Failed
        )
    }
}

// ---------------------------------------------------------------------------
// Failures
// ---------------------------------------------------------------------------

/// Identifies one stable cross-manager model lifecycle failure.
#[derive(Clone, Copy, Debug)]
pub enum NodeModelError {
    InvalidRequest { reason: &'static str },
    StateUnavailable,
    Runtime(RuntimeError),
    Placement(PlacementError),
    JournalUnavailable,
    JournalConflict,
    JournalCorrupt,
    ProviderUnavailable,
    RecoveryRequired,
}

impl NodeModelError {
    /// The text of the failure; `detail` is the text of a wrapped runtime or placement failure.
    pub open spec fn text(self, detail: Seq<char>) -> Seq<char> {
        match self {
            NodeModelError::InvalidRequest { reason } => "model command is invalid: "@ + reason@,
            NodeModelError::StateUnavailable => "model service state is unavailable"@,
            NodeModelError::Runtime(_) => detail,
            NodeModelError::Placement(_) => detail,
            NodeModelError::JournalUnavailable => "model lifecycle journal is unavailable"@,
            NodeModelError::JournalConflict => "model lifecycle changed concurrently"@,
            NodeModelError::JournalCorrupt => "model lifecycle journal is corrupt"@,
            NodeModelError::ProviderUnavailable => "model lifecycle provider is unavailable"@,
            NodeModelError::RecoveryRequired => "model lifecycle requires recovery"@,
        }
    }

    /// Presents stable redacted orchestration language.
    pub fn message(&self, detail: &str) -> (text: String)
        ensures
            text@ == self.text(detail@),
    {
        match self {
            NodeModelError::InvalidRequest { reason } => {
                "model command is invalid: ".to_owned().concat(reason)
            },
            NodeModelError::StateUnavailable => "model service state is unavailable".to_owned(),
            NodeModelError::Runtime(_) => detail.to_owned(),
            NodeModelError::Placement(_) => detail.to_owned(),
            NodeModelError::JournalUnavailable => "model lifecycle journal is unavailable".to_owned(),
            NodeModelError::JournalConflict => "model lifecycle changed concurrently".to_owned(),
            NodeModelError::JournalCorrupt => "model lifecycle journal is corrupt".to_owned(),
            NodeModelError::ProviderUnavailable => "model lifecycle provider is unavailable".to_owned(),
            NodeModelError::RecoveryRequired => "model lifecycle requires recovery".to_owned(),
        }
    }
}

// ---------------------------------------------------------------------------
// Commands
// ---------------------------------------------------------------------------

/// Carries the explicit operation and idempotency identities for one command.
#[derive(Debug)]
pub struct NodeModelCommandIdentity {
    pub operation_id: OperationId,
    pub idempotency_key: TechnicalName,
}

/// What one [`NodeModelCommandIdentity`] holds.
pub struct NodeModelCommandIdentityView {
    pub operation_id: OperationId,
    pub idempotency_key: Seq<char>,
}

impl View for NodeModelCommandIdentity {
    type V = NodeModelCommandIdentityView;

    open spec fn view(&self) -> NodeModelCommandIdentityView {
        NodeModelCommandIdentityView {
            operation_id: self.operation_id,
            idempotency_key: self.idempotency_key@,
        }
    }
}

impl Valued for NodeModelCommandIdentity {
    fn copy(&self) -> (copy: Self) {
        NodeModelCommandIdentity {
            operation_id: self.operation_id,
            idempotency_key: self.idempotency_key.copy(),
        }
    }

    fn same(&self, other: &Self) -> (same: bool) {
        self.operation_id == other.operation_id
            && self.idempotency_key.same(&other.idempotency_key)
    }
}

impl NodeModelCommandIdentity {
    /// Returns the durable operation identity.
    pub fn operation_id(&self) -> (value: OperationId)
        ensures
            value == self@.operation_id,
    {
        self.operation_id
    }

    /// Returns the canonical command idempotency identity.
    pub fn idempotency_key(&self) -> (value: &TechnicalName)
        ensures
            value@ == self@.idempotency_key,
    {
        &self.idempotency_key
    }
}

impl NodeModelCommandIdentity {
    /// Creates one bounded command identity supplied by the caller.
    pub fn new(operation_id: OperationId, idempotency_key: TechnicalName) -> (identity: Self)
        ensures
            identity@ == (NodeModelCommandIdentityView {
                operation_id,
                idempotency_key: idempotency_key@,
            }),
    {
        NodeModelCommandIdentity { operation_id, idempotency_key }
    }
}

/// Carries one normalized model-update command after selector resolution.
#[derive(Debug)]
pub struct NodeModelUpdateRequest {
    pub identity: NodeModelCommandIdentity,
    pub service_id: ModelServiceId,
    pub explicit_candidate_id: Option<RuntimeCandidateId>,
    pub dry_run: bool,
}

/// What one [`NodeModelUpdateRequest`] holds.
pub struct NodeModelUpdateRequestView {
    pub identity: NodeModelCommandIdentityView,
    pub service_id: ModelServiceId,
    pub explicit_candidate_id: Option<Seq<char>>,
    pub dry_run: bool,
}

impl View for NodeModelUpdateRequest {
    type V = NodeModelUpdateRequestView;

    open spec fn view(&self) -> NodeModelUpdateRequestView {
        NodeModelUpdateRequestView {
            identity: self.identity@,
            service_id: self.service_id,
            explicit_candidate_id: viewed(self.explicit_candidate_id),
            dry_run: self.dry_run,
        }
    }
}

impl Valued for NodeModelUpdateRequest {
    fn copy(&self) -> (copy: Self) {
        NodeModelUpdateRequest {
            identity: self.identity.copy(),
            service_id: self.service_id,
            explicit_candidate_id: copy_optional(&self.explicit_candidate_id),
            dry_run: self.dry_run,
        }
    }

    fn same(&self, other: &Self) -> (same: bool) {
        self.identity.same(&other.identity)
            && self.service_id == other.service_id
            && same_optional(&self.explicit_candidate_id, &other.explicit_candidate_id)
            && self.dry_run == other.dry_run
    }
}

impl NodeModelUpdateRequest {
    /// Returns the durable command and replay identities.
    pub fn identity(&self) -> (value: &NodeModelCommandIdentity)
        ensures
            value@ == self@.identity,
    {
        &self.identity
    }

    /// Returns the exact installed logical service.
    pub fn service_id(&self) -> (value: ModelServiceId)
        ensures
            value == self@.service_id,
    {
        self.service_id
    }

    /// Returns an explicitly pinned signed runtime candidate when supplied.
    pub fn explicit_candidate_id(&self) -> (value: &Option<RuntimeCandidateId>)
        ensures
            viewed(*value) == self@.explicit_candidate_id,
    {
        &self.explicit_candidate_id
    }
}

impl NodeModelUpdateRequest {
    /// Creates one exact signed-catalog update request for an installed service.
    pub fn new(
        identity: NodeModelCommandIdentity,
        service_id: ModelServiceId,
        explicit_candidate_id: Option<RuntimeCandidateId>,
        dry_run: bool,
    ) -> (value: Self)
        ensures
            value@ == (NodeModelUpdateRequestView {
                identity: identity@,
                service_id: service_id,
                explicit_candidate_id: viewed(explicit_candidate_id),
                dry_run: dry_run,
            }),
    {
        NodeModelUpdateRequest {
            identity,
            service_id,
            explicit_candidate_id,
            dry_run,
        }
    }
}

impl NodeModelUpdateRequest {
    /// Returns whether provider mutation is forbidden for this request.
    pub fn is_dry_run(&self) -> (dry_run: bool)
        ensures
            dry_run == self@.dry_run,
    {
        self.dry_run
    }
}

/// Selects every placement group or only groups intersecting exact authenticated nodes.
#[derive(Debug)]
pub enum NodeModelRemovalSelection {
    All,
    Nodes(Vec<NodeId>),
}

/// What one [`NodeModelRemovalSelection`] holds.
pub enum NodeModelRemovalSelectionView {
    All,
    Nodes(Seq<NodeId>),
}

impl View for NodeModelRemovalSelection {
    type V = NodeModelRemovalSelectionView;

    open spec fn view(&self) -> NodeModelRemovalSelectionView {
        match self {
            NodeModelRemovalSelection::All => NodeModelRemovalSelectionView::All,
            NodeModelRemovalSelection::Nodes(ids) => NodeModelRemovalSelectionView::Nodes(ids@),
        }
    }
}

impl Valued for NodeModelRemovalSelection {
    fn copy(&self) -> (copy: Self) {
        match self {
            NodeModelRemovalSelection::All => NodeModelRemovalSelection::All,
            NodeModelRemovalSelection::Nodes(ids) => NodeModelRemovalSelection::Nodes(clone_ids(ids)),
        }
    }

    fn same(&self, other: &Self) -> (same: bool) {
        match (self, other) {
            (NodeModelRemovalSelection::All, NodeModelRemovalSelection::All) => true,
            (NodeModelRemovalSelection::Nodes(left), NodeModelRemovalSelection::Nodes(right)) => {
                same_ids(left, right)
            },
            _ => false,
        }
    }
}

impl NodeModelRemovalSelectionView {
    /// The selected nodes, none when every group is selected.
    pub open spec fn nodes(self) -> Seq<NodeId> {
        match self {
            NodeModelRemovalSelectionView::All => Seq::empty(),
            NodeModelRemovalSelectionView::Nodes(ids) => ids,
        }
    }
}

/// A list of nodes that one group may hold.
pub open spec fn bounded_nodes(node_ids: Seq<NodeId>) -> bool {
    0 < node_ids.len() <= MAX_NODES_PER_GROUP && node_ids.no_duplicates()
}

fn nodes_are_bounded(node_ids: &Vec<NodeId>) -> (bounded: bool)
    ensures
        bounded == bounded_nodes(node_ids@),
{
    node_ids.len() > 0 && node_ids.len() <= MAX_NODES_PER_GROUP && distinct_ids(node_ids)
}

/// The selection of exact nodes, in the order of their identities.
pub open spec fn removal_nodes(node_ids: Seq<NodeId>) -> Result<
    NodeModelRemovalSelectionView,
    NodeModelError,
> {
    if bounded_nodes(node_ids) {
        Ok(NodeModelRemovalSelectionView::Nodes(sorted_ids(node_ids)))
    } else {
        Err(
            NodeModelError::InvalidRequest {
                reason: "model removal node identities must be unique and bounded",
            },
        )
    }
}

impl NodeModelRemovalSelection {
    /// Creates one bounded unique node selection for partial placement-group removal.
    pub fn nodes(node_ids: Vec<NodeId>) -> (result: Result<Self, NodeModelError>)
        ensures
            outcome(result) == removal_nodes(node_ids@),
            result matches Ok(selection) ==> strictly_increasing(selection@.nodes()),
    {
        if !nodes_are_bounded(&node_ids) {
            return Err(
                NodeModelError::InvalidRequest {
                    reason: "model removal node identities must be unique and bounded",
                },
            );
        }
        proof {
            law_sorted_ids(node_ids@);
        }
        Ok(NodeModelRemovalSelection::Nodes(sort_ids(node_ids)))
    }

    /// Returns exact selected nodes or none when every placement group is selected.
    pub fn node_ids(&self) -> (node_ids: Option<&Vec<NodeId>>)
        ensures
            node_ids is None <==> self@ is All,
            node_ids matches Some(ids) ==> self@ == NodeModelRemovalSelectionView::Nodes(ids@),
    {
        match self {
            NodeModelRemovalSelection::All => None,
            NodeModelRemovalSelection::Nodes(ids) => Some(ids),
        }
    }
}

/// Carries one durable complete or partial model-service removal command.
#[derive(Debug)]
pub struct NodeModelRemoveRequest {
    pub identity: NodeModelCommandIdentity,
    pub service_id: ModelServiceId,
    pub selection: NodeModelRemovalSelection,
    pub runtime_retention: NodeModelRemovalRetention,
}

/// What one [`NodeModelRemoveRequest`] holds.
pub struct NodeModelRemoveRequestView {
    pub identity: NodeModelCommandIdentityView,
    pub service_id: ModelServiceId,
    pub selection: NodeModelRemovalSelectionView,
    pub runtime_retention: NodeModelRemovalRetention,
}

impl View for NodeModelRemoveRequest {
    type V = NodeModelRemoveRequestView;

    open spec fn view(&self) -> NodeModelRemoveRequestView {
        NodeModelRemoveRequestView {
            identity: self.identity@,
            service_id: self.service_id,
            selection: self.selection@,
            runtime_retention: self.runtime_retention,
        }
    }
}

impl Valued for NodeModelRemoveRequest {
    fn copy(&self) -> (copy: Self) {
        NodeModelRemoveRequest {
            identity: self.identity.copy(),
            service_id: self.service_id,
            selection: self.selection.copy(),
            runtime_retention: self.runtime_retention,
        }
    }

    fn same(&self, other: &Self) -> (same: bool) {
        self.identity.same(&other.identity)
            && self.service_id == other.service_id
            && self.selection.same(&other.selection)
            && self.runtime_retention == other.runtime_retention
    }
}

impl NodeModelRemoveRequest {
    /// Returns the durable command identity.
    pub fn identity(&self) -> (value: &NodeModelCommandIdentity)
        ensures
            value@ == self@.identity,
    {
        &self.identity
    }

    /// Returns the exact logical service identity.
    pub fn service_id(&self) -> (value: ModelServiceId)
        ensures
            value == self@.service_id,
    {
        self.service_id
    }

    /// Returns the complete or node-scoped placement selection.
    pub fn selection(&self) -> (value: &NodeModelRemovalSelection)
        ensures
            value@ == self@.selection,
    {
        &self.selection
    }

    /// Returns whether unreferenced runtime installations are removed or preserved.
    pub fn runtime_retention(&self) -> (value: NodeModelRemovalRetention)
        ensures
            value == self@.runtime_retention,
    {
        self.runtime_retention
    }
}

impl NodeModelRemoveRequest {
    /// Creates one removal request from explicit placement and runtime policies.
    pub fn new(
        identity: NodeModelCommandIdentity,
        service_id: ModelServiceId,
        selection: NodeModelRemovalSelection,
        runtime_retention: NodeModelRemovalRetention,
    ) -> (value: Self)
        ensures
            value@ == (NodeModelRemoveRequestView {
                identity: identity@,
                service_id: service_id,
                selection: selection@,
                runtime_retention: runtime_retention,
            }),
    {
        NodeModelRemoveRequest {
            identity,
            service_id,
            selection,
            runtime_retention,
        }
    }
}

/// Describes one target-specific placement group without encoding engine topology.
#[derive(Debug)]
pub struct NodeModelInstallGroup {
    pub(crate) node_ids: Vec<NodeId>,
    pub(crate) explicit_candidate_id: Option<RuntimeCandidateId>,
}

/// What one [`NodeModelInstallGroup`] holds.
pub struct NodeModelInstallGroupView {
    pub node_ids: Seq<NodeId>,
    pub explicit_candidate_id: Option<Seq<char>>,
}

impl View for NodeModelInstallGroup {
    type V = NodeModelInstallGroupView;

    open(crate) spec fn view(&self) -> NodeModelInstallGroupView {
        NodeModelInstallGroupView {
            node_ids: self.node_ids@,
            explicit_candidate_id: viewed(self.explicit_candidate_id),
        }
    }
}

impl Valued for NodeModelInstallGroup {
    fn copy(&self) -> (copy: Self) {
        proof {
            use_type_invariant(self);
        }
        NodeModelInstallGroup {
            node_ids: clone_ids(&self.node_ids),
            explicit_candidate_id: copy_optional(&self.explicit_candidate_id),
        }
    }

    fn same(&self, other: &Self) -> (same: bool) {
        same_ids(&self.node_ids, &other.node_ids)
            && same_optional(&self.explicit_candidate_id, &other.explicit_candidate_id)
    }
}

impl NodeModelInstallGroup {
    #[verifier::type_invariant]
    pub(crate) open(crate) spec fn is_valid(self) -> bool {
        bounded_nodes(self@.node_ids)
    }

    /// Returns the exact authenticated nodes assigned to this group.
    pub fn node_ids(&self) -> (values: &Vec<NodeId>)
        ensures
            values@ == self@.node_ids,
    {
        &self.node_ids
    }

    /// Returns the explicit runtime candidate when selection is pinned by the caller.
    pub fn explicit_candidate_id(&self) -> (value: &Option<RuntimeCandidateId>)
        ensures
            viewed(*value) == self@.explicit_candidate_id,
    {
        &self.explicit_candidate_id
    }
}

/// A group exists exactly when its nodes are distinct and bounded.
pub open spec fn install_group(
    node_ids: Seq<NodeId>,
    explicit_candidate_id: Option<Seq<char>>,
) -> Result<NodeModelInstallGroupView, NodeModelError> {
    if bounded_nodes(node_ids) {
        Ok(NodeModelInstallGroupView { node_ids, explicit_candidate_id })
    } else {
        Err(
            NodeModelError::InvalidRequest {
                reason: "model install group node identities must be unique and bounded",
            },
        )
    }
}

impl NodeModelInstallGroup {
    /// Creates one bounded unique node set for one independent placement group.
    pub fn new(
        node_ids: Vec<NodeId>,
        explicit_candidate_id: Option<RuntimeCandidateId>,
    ) -> (result: Result<Self, NodeModelError>)
        ensures
            outcome(result) == install_group(node_ids@, viewed(explicit_candidate_id)),
    {
        if !nodes_are_bounded(&node_ids) {
            return Err(
                NodeModelError::InvalidRequest {
                    reason: "model install group node identities must be unique and bounded",
                },
            );
        }
        Ok(NodeModelInstallGroup { node_ids, explicit_candidate_id })
    }
}

/// Binds one retained node assignment to its exact still-available runtime installation.
#[derive(Clone, Copy, Debug, PartialEq, Eq, Structural)]
pub struct NodeModelRetainedNode {
    pub node_id: NodeId,
    pub installation_id: RuntimeInstallationId,
}

impl View for NodeModelRetainedNode {
    type V = NodeModelRetainedNode;

    open spec fn view(&self) -> NodeModelRetainedNode {
        *self
    }
}

impl Valued for NodeModelRetainedNode {
    fn copy(&self) -> (copy: Self) {
        *self
    }

    fn same(&self, other: &Self) -> (same: bool) {
        *self == *other
    }
}

impl NodeModelRetainedNode {
    /// Creates one exact retained assignment without consulting a catalog.
    pub fn new(node_id: NodeId, installation_id: RuntimeInstallationId) -> (node: Self)
        ensures
            node == (NodeModelRetainedNode { node_id, installation_id }),
    {
        NodeModelRetainedNode { node_id, installation_id }
    }

    /// Returns the authenticated node identity.
    pub fn node_id(&self) -> (value: NodeId)
        ensures
            value == self.node_id,
    {
        self.node_id
    }

    /// Returns the exact retained runtime installation identity.
    pub fn installation_id(&self) -> (value: RuntimeInstallationId)
        ensures
            value == self.installation_id,
    {
        self.installation_id
    }
}

/// Stores one removed group and the deterministic identity used to restore it after failure.
#[derive(Debug)]
pub struct NodeModelRetainedGroup {
    pub(crate) source_group_id: PlacementGroupId,
    pub(crate) restoration_group_id: PlacementGroupId,
    pub(crate) initial_state: PlacementGroupState,
    pub(crate) nodes: Vec<NodeModelRetainedNode>,
}

/// What one [`NodeModelRetainedGroup`] holds.
pub struct NodeModelRetainedGroupView {
    pub source_group_id: PlacementGroupId,
    pub restoration_group_id: PlacementGroupId,
    pub initial_state: PlacementGroupState,
    pub nodes: Seq<NodeModelRetainedNode>,
}

impl View for NodeModelRetainedGroup {
    type V = NodeModelRetainedGroupView;

    open(crate) spec fn view(&self) -> NodeModelRetainedGroupView {
        NodeModelRetainedGroupView {
            source_group_id: self.source_group_id,
            restoration_group_id: self.restoration_group_id,
            initial_state: self.initial_state,
            nodes: views(self.nodes@),
        }
    }
}

impl Valued for NodeModelRetainedGroup {
    fn copy(&self) -> (copy: Self) {
        proof {
            use_type_invariant(self);
        }
        NodeModelRetainedGroup {
            source_group_id: self.source_group_id,
            restoration_group_id: self.restoration_group_id,
            initial_state: self.initial_state,
            nodes: copy_all(&self.nodes),
        }
    }

    fn same(&self, other: &Self) -> (same: bool) {
        self.source_group_id == other.source_group_id
            && self.restoration_group_id == other.restoration_group_id
            && self.initial_state == other.initial_state
            && same_all(&self.nodes, &other.nodes)
    }
}

impl NodeModelRetainedGroup {
    #[verifier::type_invariant]
    pub(crate) open(crate) spec fn is_valid(self) -> bool {
        retained_group(
            self@.source_group_id,
            self@.restoration_group_id,
            self@.initial_state,
            self@.nodes,
        ) is Ok
    }

    /// Returns the removed source group whose assignments were retained.
    pub fn source_group_id(&self) -> (value: PlacementGroupId)
        ensures
            value == self@.source_group_id,
    {
        self.source_group_id
    }

    /// Returns the deterministic group identity used only for failure restoration.
    pub fn restoration_group_id(&self) -> (value: PlacementGroupId)
        ensures
            value == self@.restoration_group_id,
    {
        self.restoration_group_id
    }

    /// Returns the exact pre-command running or stopped lifecycle state.
    pub fn initial_state(&self) -> (value: PlacementGroupState)
        ensures
            value == self@.initial_state,
    {
        self.initial_state
    }

    /// Returns every exact node and retained runtime assignment in group order.
    pub fn nodes(&self) -> (values: &Vec<NodeModelRetainedNode>)
        ensures
            views(values@) == self@.nodes,
    {
        &self.nodes
    }
}

/// Group states from which a failed replacement can be restored.
pub open spec fn restorable_state(state: PlacementGroupState) -> bool {
    state == PlacementGroupState::Running || state == PlacementGroupState::Staged || state
        == PlacementGroupState::Stopped
}

/// The nodes of one list of retained assignments.
pub open spec fn retained_node_ids(nodes: Seq<NodeModelRetainedNode>) -> Seq<NodeId> {
    Seq::new(nodes.len(), |i: int| nodes[i].node_id)
}

/// The installations of one list of retained assignments.
pub open spec fn retained_installation_ids(nodes: Seq<NodeModelRetainedNode>) -> Seq<
    RuntimeInstallationId,
> {
    Seq::new(nodes.len(), |i: int| nodes[i].installation_id)
}

/// A retained group exists exactly when its assignments are bounded and distinct and its state
/// can be restored.
pub open spec fn retained_group(
    source_group_id: PlacementGroupId,
    restoration_group_id: PlacementGroupId,
    initial_state: PlacementGroupState,
    nodes: Seq<NodeModelRetainedNode>,
) -> Result<NodeModelRetainedGroupView, NodeModelError> {
    if 0 < nodes.len() <= MAX_NODES_PER_GROUP && retained_node_ids(nodes).no_duplicates()
        && retained_installation_ids(nodes).no_duplicates() && restorable_state(initial_state) {
        Ok(
            NodeModelRetainedGroupView {
                source_group_id,
                restoration_group_id,
                initial_state,
                nodes,
            },
        )
    } else {
        Err(NodeModelError::InvalidRequest { reason: "retained placement group is invalid" })
    }
}

/// Returns the nodes of one list of retained assignments.
pub fn nodes_of_retained(nodes: &Vec<NodeModelRetainedNode>) -> (ids: Vec<NodeId>)
    ensures
        ids@ == retained_node_ids(views(nodes@)),
{
    let mut ids: Vec<NodeId> = Vec::new();
    let mut i: usize = 0;
    while i < nodes.len()
        invariant
            i <= nodes@.len(),
            ids@.len() == i,
            forall|k: int| 0 <= k < i ==> ids@[k] == (#[trigger] nodes@[k]).node_id,
        decreases nodes@.len() - i,
    {
        ids.push(nodes[i].node_id);
        i += 1;
    }
    assert(ids@ =~= retained_node_ids(views(nodes@)));
    ids
}

fn installations_of_retained(
    nodes: &Vec<NodeModelRetainedNode>,
) -> (ids: Vec<RuntimeInstallationId>)
    ensures
        ids@ == retained_installation_ids(views(nodes@)),
{
    let mut ids: Vec<RuntimeInstallationId> = Vec::new();
    let mut i: usize = 0;
    while i < nodes.len()
        invariant
            i <= nodes@.len(),
            ids@.len() == i,
            forall|k: int| 0 <= k < i ==> ids@[k] == (#[trigger] nodes@[k]).installation_id,
        decreases nodes@.len() - i,
    {
        ids.push(nodes[i].installation_id);
        i += 1;
    }
    assert(ids@ =~= retained_installation_ids(views(nodes@)));
    ids
}

impl NodeModelRetainedGroup {
    /// Creates one bounded exact restoration plan with unique nodes and installations.
    pub fn new(
        source_group_id: PlacementGroupId,
        restoration_group_id: PlacementGroupId,
        initial_state: PlacementGroupState,
        nodes: Vec<NodeModelRetainedNode>,
    ) -> (result: Result<Self, NodeModelError>)
        ensures
            outcome(result) == retained_group(
                source_group_id,
                restoration_group_id,
                initial_state,
                views(nodes@),
            ),
    {
        if nodes.len() == 0 || nodes.len() > MAX_NODES_PER_GROUP || !distinct_ids(
            &nodes_of_retained(&nodes),
        ) || !distinct_ids(&installations_of_retained(&nodes)) || !matches!(
            initial_state,
            PlacementGroupState::Running | PlacementGroupState::Staged | PlacementGroupState::Stopped
        ) {
            return Err(
                NodeModelError::InvalidRequest { reason: "retained placement group is invalid" },
            );
        }
        Ok(
            NodeModelRetainedGroup {
                source_group_id,
                restoration_group_id,
                initial_state,
                nodes,
            },
        )
    }
}

/// Describes one complete durable model installation command.
#[derive(Debug)]
pub struct NodeModelInstallRequest {
    pub(crate) identity: NodeModelCommandIdentity,
    pub(crate) service_id: ModelServiceId,
    pub(crate) logical_model: LogicalModelName,
    pub(crate) groups: Vec<NodeModelInstallGroup>,
}

/// What one [`NodeModelInstallRequest`] holds.
pub struct NodeModelInstallRequestView {
    pub identity: NodeModelCommandIdentityView,
    pub service_id: ModelServiceId,
    pub logical_model: Seq<char>,
    pub groups: Seq<NodeModelInstallGroupView>,
}

impl View for NodeModelInstallRequest {
    type V = NodeModelInstallRequestView;

    open(crate) spec fn view(&self) -> NodeModelInstallRequestView {
        NodeModelInstallRequestView {
            identity: self.identity@,
            service_id: self.service_id,
            logical_model: self.logical_model@,
            groups: views(self.groups@),
        }
    }
}

impl Valued for NodeModelInstallRequest {
    fn copy(&self) -> (copy: Self) {
        proof {
            use_type_invariant(self);
        }
        NodeModelInstallRequest {
            identity: self.identity.copy(),
            service_id: self.service_id,
            logical_model: self.logical_model.copy(),
            groups: copy_all(&self.groups),
        }
    }

    fn same(&self, other: &Self) -> (same: bool) {
        self.identity.same(&other.identity)
            && self.service_id == other.service_id
            && self.logical_model.same(&other.logical_model)
            && same_all(&self.groups, &other.groups)
    }
}

impl NodeModelInstallRequest {
    #[verifier::type_invariant]
    pub(crate) open(crate) spec fn is_valid(self) -> bool {
        install_request(
            self@.identity,
            self@.service_id,
            self@.logical_model,
            self@.groups,
        ) is Ok
    }

    /// Returns the explicit command identity.
    pub fn identity(&self) -> (value: &NodeModelCommandIdentity)
        ensures
            value@ == self@.identity,
    {
        &self.identity
    }

    /// Returns the planned logical service identity.
    pub fn service_id(&self) -> (value: ModelServiceId)
        ensures
            value == self@.service_id,
    {
        self.service_id
    }

    /// Returns the user-facing logical model identity.
    pub fn logical_model(&self) -> (value: &LogicalModelName)
        ensures
            value@ == self@.logical_model,
    {
        &self.logical_model
    }

    /// Returns every independent placement-group plan in caller order.
    pub fn groups(&self) -> (values: &Vec<NodeModelInstallGroup>)
        ensures
            views(values@) == self@.groups,
    {
        &self.groups
    }
}

/// An install command exists exactly when its plan is bounded and not empty.
pub open spec fn install_request(
    identity: NodeModelCommandIdentityView,
    service_id: ModelServiceId,
    logical_model: Seq<char>,
    groups: Seq<NodeModelInstallGroupView>,
) -> Result<NodeModelInstallRequestView, NodeModelError> {
    if 0 < groups.len() <= MAX_INSTALL_GROUPS {
        Ok(NodeModelInstallRequestView { identity, service_id, logical_model, groups })
    } else {
        Err(
            NodeModelError::InvalidRequest {
                reason: "model install requires a bounded non-empty placement-group plan",
            },
        )
    }
}

impl NodeModelInstallRequest {
    /// Creates one bounded model service and its independent target-specific groups.
    pub fn new(
        identity: NodeModelCommandIdentity,
        service_id: ModelServiceId,
        logical_model: LogicalModelName,
        groups: Vec<NodeModelInstallGroup>,
    ) -> (result: Result<Self, NodeModelError>)
        ensures
            outcome(result) == install_request(
                identity@,
                service_id,
                logical_model@,
                views(groups@),
            ),
    {
        if groups.len() == 0 || groups.len() > MAX_INSTALL_GROUPS {
            return Err(
                NodeModelError::InvalidRequest {
                    reason: "model install requires a bounded non-empty placement-group plan",
                },
            );
        }
        Ok(NodeModelInstallRequest { identity, service_id, logical_model, groups })
    }
}

// ---------------------------------------------------------------------------
// Journals
// ---------------------------------------------------------------------------

/// Binds one planned group node to its exact selected candidate and installation.
#[derive(Debug)]
pub struct NodeModelRuntimeReceipt {
    pub group_index: usize,
    pub node_id: NodeId,
    pub candidate_id: RuntimeCandidateId,
    pub installation_id: Option<RuntimeInstallationId>,
    pub disposition: NodeModelRuntimeDisposition,
}

/// What one [`NodeModelRuntimeReceipt`] holds.
pub struct NodeModelRuntimeReceiptView {
    pub group_index: usize,
    pub node_id: NodeId,
    pub candidate_id: Seq<char>,
    pub installation_id: Option<RuntimeInstallationId>,
    pub disposition: NodeModelRuntimeDisposition,
}

impl View for NodeModelRuntimeReceipt {
    type V = NodeModelRuntimeReceiptView;

    open spec fn view(&self) -> NodeModelRuntimeReceiptView {
        NodeModelRuntimeReceiptView {
            group_index: self.group_index,
            node_id: self.node_id,
            candidate_id: self.candidate_id@,
            installation_id: self.installation_id,
            disposition: self.disposition,
        }
    }
}

impl Valued for NodeModelRuntimeReceipt {
    fn copy(&self) -> (copy: Self) {
        NodeModelRuntimeReceipt {
            group_index: self.group_index,
            node_id: self.node_id,
            candidate_id: self.candidate_id.copy(),
            installation_id: self.installation_id,
            disposition: self.disposition,
        }
    }

    fn same(&self, other: &Self) -> (same: bool) {
        self.group_index == other.group_index
            && self.node_id == other.node_id
            && self.candidate_id.same(&other.candidate_id)
            && self.installation_id == other.installation_id
            && self.disposition == other.disposition
    }
}

impl NodeModelRuntimeReceipt {
    /// Returns the planned placement-group index.
    pub fn group_index(&self) -> (value: usize)
        ensures
            value == self@.group_index,
    {
        self.group_index
    }

    /// Returns the exact installation node.
    pub fn node_id(&self) -> (value: NodeId)
        ensures
            value == self@.node_id,
    {
        self.node_id
    }

    /// Returns the selected candidate identity fixed before acquisition.
    pub fn candidate_id(&self) -> (value: &RuntimeCandidateId)
        ensures
            value@ == self@.candidate_id,
    {
        &self.candidate_id
    }

    /// Returns the exact installation after acquisition or reuse resolves.
    pub fn installation_id(&self) -> (value: Option<RuntimeInstallationId>)
        ensures
            value == self@.installation_id,
    {
        self.installation_id
    }

    /// Returns the exact durable acquisition disposition.
    pub fn disposition(&self) -> (value: NodeModelRuntimeDisposition)
        ensures
            value == self@.disposition,
    {
        self.disposition
    }
}

impl Keyed for NodeModelRuntimeReceipt {
    open spec fn key(model: NodeModelRuntimeReceiptView) -> (int, int) {
        (model.group_index as int, model.node_id.value as int)
    }

    fn key_at_most(&self, other: &Self) -> (at_most: bool) {
        self.group_index < other.group_index || (self.group_index == other.group_index
            && self.node_id.value <= other.node_id.value)
    }
}

/// The key by which receipts are ordered: the group, then the node.
pub open spec fn receipt_key(model: NodeModelRuntimeReceiptView) -> (int, int) {
    (model.group_index as int, model.node_id.value as int)
}

/// The state of one placement group before a command changed it.
#[derive(Clone, Copy, Debug, PartialEq, Eq, Structural)]
pub struct InitialGroupState {
    pub placement_group_id: PlacementGroupId,
    pub state: PlacementGroupState,
}

impl View for InitialGroupState {
    type V = InitialGroupState;

    open spec fn view(&self) -> InitialGroupState {
        *self
    }
}

impl Valued for InitialGroupState {
    fn copy(&self) -> (copy: Self) {
        *self
    }

    fn same(&self, other: &Self) -> (same: bool) {
        *self == *other
    }
}

/// Stores one restart-safe normalized command and every committed provider receipt.
#[derive(Debug)]
pub struct NodeModelJournal {
    pub operation_id: OperationId,
    pub idempotency_key: TechnicalName,
    pub action: NodeModelAction,
    pub service_id: ModelServiceId,
    pub logical_model: LogicalModelName,
    pub install_groups: Vec<NodeModelInstallGroup>,
    pub rollback_target_id: Option<TargetId>,
    pub retained_groups: Vec<NodeModelRetainedGroup>,
    pub runtime_receipts: Vec<NodeModelRuntimeReceipt>,
    pub planned_group_ids: Vec<PlacementGroupId>,
    pub placement_group_ids: Vec<PlacementGroupId>,
    pub initial_group_states: Vec<InitialGroupState>,
    pub removal_node_ids: Vec<NodeId>,
    pub removal_runtime_retention: NodeModelRemovalRetention,
    pub state: NodeModelJournalState,
    pub failure_code: Option<TechnicalName>,
    pub created_at: UnixMilliseconds,
    pub updated_at: UnixMilliseconds,
}

/// What one [`NodeModelJournal`] holds.
pub struct NodeModelJournalView {
    pub operation_id: OperationId,
    pub idempotency_key: Seq<char>,
    pub action: NodeModelAction,
    pub service_id: ModelServiceId,
    pub logical_model: Seq<char>,
    pub install_groups: Seq<NodeModelInstallGroupView>,
    pub rollback_target_id: Option<Seq<char>>,
    pub retained_groups: Seq<NodeModelRetainedGroupView>,
    pub runtime_receipts: Seq<NodeModelRuntimeReceiptView>,
    pub planned_group_ids: Seq<PlacementGroupId>,
    pub placement_group_ids: Seq<PlacementGroupId>,
    pub initial_group_states: Seq<InitialGroupState>,
    pub removal_node_ids: Seq<NodeId>,
    pub removal_runtime_retention: NodeModelRemovalRetention,
    pub state: NodeModelJournalState,
    pub failure_code: Option<Seq<char>>,
    pub created_at: UnixMilliseconds,
    pub updated_at: UnixMilliseconds,
}

impl View for NodeModelJournal {
    type V = NodeModelJournalView;

    open spec fn view(&self) -> NodeModelJournalView {
        NodeModelJournalView {
            operation_id: self.operation_id,
            idempotency_key: self.idempotency_key@,
            action: self.action,
            service_id: self.service_id,
            logical_model: self.logical_model@,
            install_groups: views(self.install_groups@),
            rollback_target_id: viewed(self.rollback_target_id),
            retained_groups: views(self.retained_groups@),
            runtime_receipts: views(self.runtime_receipts@),
            planned_group_ids: self.planned_group_ids@,
            placement_group_ids: self.placement_group_ids@,
            initial_group_states: views(self.initial_group_states@),
            removal_node_ids: self.removal_node_ids@,
            removal_runtime_retention: self.removal_runtime_retention,
            state: self.state,
            failure_code: viewed(self.failure_code),
            created_at: self.created_at,
            updated_at: self.updated_at,
        }
    }
}

impl Valued for NodeModelJournal {
    fn copy(&self) -> (copy: Self) {
        NodeModelJournal {
            operation_id: self.operation_id,
            idempotency_key: self.idempotency_key.copy(),
            action: self.action,
            service_id: self.service_id,
            logical_model: self.logical_model.copy(),
            install_groups: copy_all(&self.install_groups),
            rollback_target_id: copy_optional(&self.rollback_target_id),
            retained_groups: copy_all(&self.retained_groups),
            runtime_receipts: copy_all(&self.runtime_receipts),
            planned_group_ids: clone_ids(&self.planned_group_ids),
            placement_group_ids: clone_ids(&self.placement_group_ids),
            initial_group_states: copy_all(&self.initial_group_states),
            removal_node_ids: clone_ids(&self.removal_node_ids),
            removal_runtime_retention: self.removal_runtime_retention,
            state: self.state,
            failure_code: copy_optional(&self.failure_code),
            created_at: self.created_at,
            updated_at: self.updated_at,
        }
    }

    fn same(&self, other: &Self) -> (same: bool) {
        self.operation_id == other.operation_id
            && self.idempotency_key.same(&other.idempotency_key)
            && self.action == other.action
            && self.service_id == other.service_id
            && self.logical_model.same(&other.logical_model)
            && same_all(&self.install_groups, &other.install_groups)
            && same_optional(&self.rollback_target_id, &other.rollback_target_id)
            && same_all(&self.retained_groups, &other.retained_groups)
            && same_all(&self.runtime_receipts, &other.runtime_receipts)
            && same_ids(&self.planned_group_ids, &other.planned_group_ids)
            && same_ids(&self.placement_group_ids, &other.placement_group_ids)
            && same_all(&self.initial_group_states, &other.initial_group_states)
            && same_ids(&self.removal_node_ids, &other.removal_node_ids)
            && self.removal_runtime_retention == other.removal_runtime_retention
            && self.state == other.state
            && same_optional(&self.failure_code, &other.failure_code)
            && self.created_at == other.created_at
            && self.updated_at == other.updated_at
    }
}

impl NodeModelJournal {
    /// Returns the exact command operation identity.
    pub fn operation_id(&self) -> (value: OperationId)
        ensures
            value == self@.operation_id,
    {
        self.operation_id
    }

    /// Returns the normalized model action.
    pub fn action(&self) -> (value: NodeModelAction)
        ensures
            value == self@.action,
    {
        self.action
    }

    /// Returns the exact service identity owned by this command.
    pub fn service_id(&self) -> (value: ModelServiceId)
        ensures
            value == self@.service_id,
    {
        self.service_id
    }

    /// Returns the logical model identity captured before mutation.
    pub fn logical_model(&self) -> (value: &LogicalModelName)
        ensures
            value@ == self@.logical_model,
    {
        &self.logical_model
    }

    /// Returns every fixed runtime acquisition receipt.
    pub fn runtime_receipts(&self) -> (values: &Vec<NodeModelRuntimeReceipt>)
        ensures
            views(values@) == self@.runtime_receipts,
    {
        &self.runtime_receipts
    }

    /// Returns the optional runtime target selected by a user-facing rollback.
    pub fn rollback_target_id(&self) -> (value: &Option<TargetId>)
        ensures
            viewed(*value) == self@.rollback_target_id,
    {
        &self.rollback_target_id
    }

    /// Returns every exact source group retained for rollback or failure restoration.
    pub fn retained_groups(&self) -> (values: &Vec<NodeModelRetainedGroup>)
        ensures
            views(values@) == self@.retained_groups,
    {
        &self.retained_groups
    }

    /// Returns every exact placement-group identity fixed before manager mutation.
    pub fn planned_group_ids(&self) -> (values: &Vec<PlacementGroupId>)
        ensures
            values@ == self@.planned_group_ids,
    {
        &self.planned_group_ids
    }

    /// Returns every exact placement group created or targeted by the command.
    pub fn placement_group_ids(&self) -> (values: &Vec<PlacementGroupId>)
        ensures
            values@ == self@.placement_group_ids,
    {
        &self.placement_group_ids
    }

    /// Returns exact node selectors for a partial removal or none for complete removal.
    pub fn removal_node_ids(&self) -> (values: &Vec<NodeId>)
        ensures
            values@ == self@.removal_node_ids,
    {
        &self.removal_node_ids
    }

    /// Returns the exact runtime-retention decision committed before model removal began.
    pub fn removal_runtime_retention(&self) -> (value: NodeModelRemovalRetention)
        ensures
            value == self@.removal_runtime_retention,
    {
        self.removal_runtime_retention
    }

    /// Returns the durable execution or compensation state.
    pub fn state(&self) -> (value: NodeModelJournalState)
        ensures
            value == self@.state,
    {
        self.state
    }

    /// Returns the stable redacted failure code when execution failed.
    pub fn failure_code(&self) -> (value: &Option<TechnicalName>)
        ensures
            viewed(*value) == self@.failure_code,
    {
        &self.failure_code
    }

    /// Returns when the journal was first committed.
    pub fn created_at(&self) -> (value: UnixMilliseconds)
        ensures
            value == self@.created_at,
    {
        self.created_at
    }

    /// Returns when the journal most recently advanced.
    pub fn updated_at(&self) -> (value: UnixMilliseconds)
        ensures
            value == self@.updated_at,
    {
        self.updated_at
    }
}

/// Returns one journal with its optimistic persistence revision.
#[derive(Debug)]
pub struct VersionedNodeModelJournal {
    pub journal: NodeModelJournal,
    pub revision: u64,
}

/// What one [`VersionedNodeModelJournal`] holds.
pub struct VersionedNodeModelJournalView {
    pub journal: NodeModelJournalView,
    pub revision: u64,
}

impl View for VersionedNodeModelJournal {
    type V = VersionedNodeModelJournalView;

    open spec fn view(&self) -> VersionedNodeModelJournalView {
        VersionedNodeModelJournalView {
            journal: self.journal@,
            revision: self.revision,
        }
    }
}

impl Valued for VersionedNodeModelJournal {
    fn copy(&self) -> (copy: Self) {
        VersionedNodeModelJournal {
            journal: self.journal.copy(),
            revision: self.revision,
        }
    }

    fn same(&self, other: &Self) -> (same: bool) {
        self.journal.same(&other.journal)
            && self.revision == other.revision
    }
}

impl VersionedNodeModelJournal {
    /// Returns the immutable journal snapshot.
    pub fn journal(&self) -> (value: &NodeModelJournal)
        ensures
            value@ == self@.journal,
    {
        &self.journal
    }

    /// Returns the optimistic revision required by the next advance.
    pub fn revision(&self) -> (value: u64)
        ensures
            value == self@.revision,
    {
        self.revision
    }
}

impl VersionedNodeModelJournal {
    /// Creates one versioned snapshot.
    pub fn new(
        journal: NodeModelJournal,
        revision: u64,
    ) -> (value: Self)
        ensures
            value@ == (VersionedNodeModelJournalView {
                journal: journal@,
                revision: revision,
            }),
    {
        VersionedNodeModelJournal {
            journal,
            revision,
        }
    }
}

/// Returns one model service with the revision required by its next transition.
#[derive(Debug)]
pub struct VersionedNodeModelService {
    pub service: ModelService,
    pub revision: u64,
}

/// What one [`VersionedNodeModelService`] holds.
pub struct VersionedNodeModelServiceView {
    pub service: ModelServiceView,
    pub revision: u64,
}

impl View for VersionedNodeModelService {
    type V = VersionedNodeModelServiceView;

    open spec fn view(&self) -> VersionedNodeModelServiceView {
        VersionedNodeModelServiceView {
            service: self.service@,
            revision: self.revision,
        }
    }
}

impl Valued for VersionedNodeModelService {
    fn copy(&self) -> (copy: Self) {
        VersionedNodeModelService {
            service: self.service.copy(),
            revision: self.revision,
        }
    }

    fn same(&self, other: &Self) -> (same: bool) {
        self.service.same(&other.service)
            && self.revision == other.revision
    }
}

impl VersionedNodeModelService {
    /// Returns the service snapshot.
    pub fn service(&self) -> (value: &ModelService)
        ensures
            value@ == self@.service,
    {
        &self.service
    }

    /// Returns the optimistic revision required by the next advance.
    pub fn revision(&self) -> (value: u64)
        ensures
            value == self@.revision,
    {
        self.revision
    }
}

impl VersionedNodeModelService {
    /// Creates one versioned snapshot.
    pub fn new(
        service: ModelService,
        revision: u64,
    ) -> (value: Self)
        ensures
            value@ == (VersionedNodeModelServiceView {
                service: service@,
                revision: revision,
            }),
    {
        VersionedNodeModelService {
            service,
            revision,
        }
    }
}

/// Returns one operation with the revision required by its next transition.
#[derive(Debug)]
pub struct VersionedNodeModelOperation {
    pub operation: Operation,
    pub revision: u64,
}

/// What one [`VersionedNodeModelOperation`] holds.
pub struct VersionedNodeModelOperationView {
    pub operation: OperationView,
    pub revision: u64,
}

impl View for VersionedNodeModelOperation {
    type V = VersionedNodeModelOperationView;

    open spec fn view(&self) -> VersionedNodeModelOperationView {
        VersionedNodeModelOperationView {
            operation: self.operation@,
            revision: self.revision,
        }
    }
}

impl Valued for VersionedNodeModelOperation {
    fn copy(&self) -> (copy: Self) {
        VersionedNodeModelOperation {
            operation: self.operation.copy(),
            revision: self.revision,
        }
    }

    fn same(&self, other: &Self) -> (same: bool) {
        self.operation.same(&other.operation)
            && self.revision == other.revision
    }
}

impl VersionedNodeModelOperation {
    /// Returns the operation snapshot.
    pub fn operation(&self) -> (value: &Operation)
        ensures
            value@ == self@.operation,
    {
        &self.operation
    }

    /// Returns the optimistic revision required by the next advance.
    pub fn revision(&self) -> (value: u64)
        ensures
            value == self@.revision,
    {
        self.revision
    }
}

impl VersionedNodeModelOperation {
    /// Creates one versioned snapshot.
    pub fn new(
        operation: Operation,
        revision: u64,
    ) -> (value: Self)
        ensures
            value@ == (VersionedNodeModelOperationView {
                operation: operation@,
                revision: revision,
            }),
    {
        VersionedNodeModelOperation {
            operation,
            revision,
        }
    }
}

// ---------------------------------------------------------------------------
// Projections
// ---------------------------------------------------------------------------

/// Projects one logical service with its exact group and installation identities.
#[derive(Debug)]
pub struct NodeModelServiceProjection {
    pub service: ModelService,
    pub placement_groups: Vec<PlacementRecord>,
    pub installations: Vec<RuntimeInstallation>,
}

/// What one [`NodeModelServiceProjection`] holds.
pub struct NodeModelServiceProjectionView {
    pub service: ModelServiceView,
    pub placement_groups: Seq<PlacementRecordView>,
    pub installations: Seq<RuntimeInstallationView>,
}

impl View for NodeModelServiceProjection {
    type V = NodeModelServiceProjectionView;

    open spec fn view(&self) -> NodeModelServiceProjectionView {
        NodeModelServiceProjectionView {
            service: self.service@,
            placement_groups: views(self.placement_groups@),
            installations: views(self.installations@),
        }
    }
}

impl Valued for NodeModelServiceProjection {
    fn copy(&self) -> (copy: Self) {
        NodeModelServiceProjection {
            service: self.service.copy(),
            placement_groups: copy_all(&self.placement_groups),
            installations: copy_all(&self.installations),
        }
    }

    fn same(&self, other: &Self) -> (same: bool) {
        self.service.same(&other.service)
            && same_all(&self.placement_groups, &other.placement_groups)
            && same_all(&self.installations, &other.installations)
    }
}

impl NodeModelServiceProjection {
    /// Returns the durable logical service snapshot.
    pub fn service(&self) -> (value: &ModelService)
        ensures
            value@ == self@.service,
    {
        &self.service
    }

    /// Returns every exact placement-group aggregate in service order.
    pub fn placement_groups(&self) -> (values: &Vec<PlacementRecord>)
        ensures
            views(values@) == self@.placement_groups,
    {
        &self.placement_groups
    }

    /// Returns every exact referenced installation in stable identity order.
    pub fn installations(&self) -> (values: &Vec<RuntimeInstallation>)
        ensures
            views(values@) == self@.installations,
    {
        &self.installations
    }
}

/// The evidence labels of one list of installations.
pub open spec fn evidence_labels_of(
    installations: Seq<RuntimeInstallationView>,
) -> Seq<EvidenceLabel> {
    Seq::new(installations.len(), |i: int| installations[i].evidence_label)
}

impl NodeModelServiceProjection {
    /// Returns every descriptive evidence label without interpreting it as admission.
    pub fn evidence_labels(&self) -> (labels: Vec<EvidenceLabel>)
        ensures
            labels@ == evidence_labels_of(self@.installations),
    {
        let mut labels: Vec<EvidenceLabel> = Vec::new();
        let mut i: usize = 0;
        while i < self.installations.len()
            invariant
                i <= self.installations@.len(),
                labels@.len() == i,
                forall|k: int|
                    0 <= k < i ==> labels@[k] == (#[trigger] self.installations@[k]).evidence_label,
            decreases self.installations@.len() - i,
        {
            labels.push(self.installations[i].evidence_label);
            i += 1;
        }
        assert(labels@ =~= evidence_labels_of(self@.installations));
        labels
    }
}

/// Projects bounded user-visible operation logs and internal recovery state.
#[derive(Debug)]
pub struct NodeModelLogProjection {
    pub operations: Vec<Operation>,
    pub journals: Vec<VersionedNodeModelJournal>,
}

/// What one [`NodeModelLogProjection`] holds.
pub struct NodeModelLogProjectionView {
    pub operations: Seq<OperationView>,
    pub journals: Seq<VersionedNodeModelJournalView>,
}

impl View for NodeModelLogProjection {
    type V = NodeModelLogProjectionView;

    open spec fn view(&self) -> NodeModelLogProjectionView {
        NodeModelLogProjectionView {
            operations: views(self.operations@),
            journals: views(self.journals@),
        }
    }
}

impl Valued for NodeModelLogProjection {
    fn copy(&self) -> (copy: Self) {
        NodeModelLogProjection {
            operations: copy_all(&self.operations),
            journals: copy_all(&self.journals),
        }
    }

    fn same(&self, other: &Self) -> (same: bool) {
        same_all(&self.operations, &other.operations)
            && same_all(&self.journals, &other.journals)
    }
}

impl NodeModelLogProjection {
    /// Returns every user-visible operation for the service.
    pub fn operations(&self) -> (values: &Vec<Operation>)
        ensures
            views(values@) == self@.operations,
    {
        &self.operations
    }

    /// Returns every redacted lifecycle journal for the service.
    pub fn journals(&self) -> (values: &Vec<VersionedNodeModelJournal>)
        ensures
            views(values@) == self@.journals,
    {
        &self.journals
    }
}

/// Returns one completed or replayed model-service command.
#[derive(Debug)]
pub struct NodeModelCommandResult {
    pub journal: VersionedNodeModelJournal,
    pub service: ModelService,
    pub operation: Operation,
}

/// What one [`NodeModelCommandResult`] holds.
pub struct NodeModelCommandResultView {
    pub journal: VersionedNodeModelJournalView,
    pub service: ModelServiceView,
    pub operation: OperationView,
}

impl View for NodeModelCommandResult {
    type V = NodeModelCommandResultView;

    open spec fn view(&self) -> NodeModelCommandResultView {
        NodeModelCommandResultView {
            journal: self.journal@,
            service: self.service@,
            operation: self.operation@,
        }
    }
}

impl Valued for NodeModelCommandResult {
    fn copy(&self) -> (copy: Self) {
        NodeModelCommandResult {
            journal: self.journal.copy(),
            service: self.service.copy(),
            operation: self.operation.copy(),
        }
    }

    fn same(&self, other: &Self) -> (same: bool) {
        self.journal.same(&other.journal)
            && self.service.same(&other.service)
            && self.operation.same(&other.operation)
    }
}

impl NodeModelCommandResult {
    /// Returns the durable cross-manager command journal.
    pub fn journal(&self) -> (value: &VersionedNodeModelJournal)
        ensures
            value@ == self@.journal,
    {
        &self.journal
    }

    /// Returns the latest logical service snapshot.
    pub fn service(&self) -> (value: &ModelService)
        ensures
            value@ == self@.service,
    {
        &self.service
    }

    /// Returns the user-visible operation projection.
    pub fn operation(&self) -> (value: &Operation)
        ensures
            value@ == self@.operation,
    {
        &self.operation
    }
}

/// Projects one installed model service without exposing manager-private aggregate documents.
#[derive(Debug)]
pub struct NodeModelServiceSummary {
    pub service_id: ModelServiceId,
    pub logical_model: LogicalModelName,
    pub desired_state: ModelServiceDesiredState,
    pub placement_group_ids: Vec<PlacementGroupId>,
    pub runtime_installation_ids: Vec<RuntimeInstallationId>,
    pub evidence_labels: Vec<EvidenceLabel>,
}

/// What one [`NodeModelServiceSummary`] holds.
pub struct NodeModelServiceSummaryView {
    pub service_id: ModelServiceId,
    pub logical_model: Seq<char>,
    pub desired_state: ModelServiceDesiredState,
    pub placement_group_ids: Seq<PlacementGroupId>,
    pub runtime_installation_ids: Seq<RuntimeInstallationId>,
    pub evidence_labels: Seq<EvidenceLabel>,
}

impl View for NodeModelServiceSummary {
    type V = NodeModelServiceSummaryView;

    open spec fn view(&self) -> NodeModelServiceSummaryView {
        NodeModelServiceSummaryView {
            service_id: self.service_id,
            logical_model: self.logical_model@,
            desired_state: self.desired_state,
            placement_group_ids: self.placement_group_ids@,
            runtime_installation_ids: self.runtime_installation_ids@,
            evidence_labels: views(self.evidence_labels@),
        }
    }
}

impl Valued for NodeModelServiceSummary {
    fn copy(&self) -> (copy: Self) {
        NodeModelServiceSummary {
            service_id: self.service_id,
            logical_model: self.logical_model.copy(),
            desired_state: self.desired_state,
            placement_group_ids: clone_ids(&self.placement_group_ids),
            runtime_installation_ids: clone_ids(&self.runtime_installation_ids),
            evidence_labels: copy_all(&self.evidence_labels),
        }
    }

    fn same(&self, other: &Self) -> (same: bool) {
        self.service_id == other.service_id
            && self.logical_model.same(&other.logical_model)
            && self.desired_state == other.desired_state
            && same_ids(&self.placement_group_ids, &other.placement_group_ids)
            && same_ids(&self.runtime_installation_ids, &other.runtime_installation_ids)
            && same_all(&self.evidence_labels, &other.evidence_labels)
    }
}

impl NodeModelServiceSummary {
    /// Returns the stable logical service identity.
    pub fn service_id(&self) -> (value: ModelServiceId)
        ensures
            value == self@.service_id,
    {
        self.service_id
    }

    /// Returns the user-facing logical model identity.
    pub fn logical_model(&self) -> (value: &LogicalModelName)
        ensures
            value@ == self@.logical_model,
    {
        &self.logical_model
    }

    /// Returns the durable desired state.
    pub fn desired_state(&self) -> (value: ModelServiceDesiredState)
        ensures
            value == self@.desired_state,
    {
        self.desired_state
    }

    /// Returns every exact placement-group identity in service order.
    pub fn placement_group_ids(&self) -> (values: &Vec<PlacementGroupId>)
        ensures
            values@ == self@.placement_group_ids,
    {
        &self.placement_group_ids
    }

    /// Returns every referenced runtime installation in stable order.
    pub fn runtime_installation_ids(&self) -> (values: &Vec<RuntimeInstallationId>)
        ensures
            values@ == self@.runtime_installation_ids,
    {
        &self.runtime_installation_ids
    }

    /// Returns descriptive evidence labels without turning them into an admission gate.
    pub fn evidence_labels(&self) -> (values: &Vec<EvidenceLabel>)
        ensures
            views(values@) == self@.evidence_labels,
    {
        &self.evidence_labels
    }
}

impl NodeModelServiceSummary {
    /// Creates one private projection for transport.
    pub fn new(
        service_id: ModelServiceId,
        logical_model: LogicalModelName,
        desired_state: ModelServiceDesiredState,
        placement_group_ids: Vec<PlacementGroupId>,
        runtime_installation_ids: Vec<RuntimeInstallationId>,
        evidence_labels: Vec<EvidenceLabel>,
    ) -> (value: Self)
        ensures
            value@ == (NodeModelServiceSummaryView {
                service_id: service_id,
                logical_model: logical_model@,
                desired_state: desired_state,
                placement_group_ids: placement_group_ids@,
                runtime_installation_ids: runtime_installation_ids@,
                evidence_labels: views(evidence_labels@),
            }),
    {
        NodeModelServiceSummary {
            service_id,
            logical_model,
            desired_state,
            placement_group_ids,
            runtime_installation_ids,
            evidence_labels,
        }
    }
}

/// Projects one terminal or replayed model command without exposing its private journal document.
#[derive(Debug)]
pub struct NodeModelCommandSummary {
    pub operation_id: OperationId,
    pub service_id: ModelServiceId,
    pub logical_model: LogicalModelName,
    pub desired_state: ModelServiceDesiredState,
    pub action: NodeModelAction,
    pub journal_state: NodeModelJournalState,
    pub failure_code: Option<TechnicalName>,
}

/// What one [`NodeModelCommandSummary`] holds.
pub struct NodeModelCommandSummaryView {
    pub operation_id: OperationId,
    pub service_id: ModelServiceId,
    pub logical_model: Seq<char>,
    pub desired_state: ModelServiceDesiredState,
    pub action: NodeModelAction,
    pub journal_state: NodeModelJournalState,
    pub failure_code: Option<Seq<char>>,
}

impl View for NodeModelCommandSummary {
    type V = NodeModelCommandSummaryView;

    open spec fn view(&self) -> NodeModelCommandSummaryView {
        NodeModelCommandSummaryView {
            operation_id: self.operation_id,
            service_id: self.service_id,
            logical_model: self.logical_model@,
            desired_state: self.desired_state,
            action: self.action,
            journal_state: self.journal_state,
            failure_code: viewed(self.failure_code),
        }
    }
}

impl Valued for NodeModelCommandSummary {
    fn copy(&self) -> (copy: Self) {
        NodeModelCommandSummary {
            operation_id: self.operation_id,
            service_id: self.service_id,
            logical_model: self.logical_model.copy(),
            desired_state: self.desired_state,
            action: self.action,
            journal_state: self.journal_state,
            failure_code: copy_optional(&self.failure_code),
        }
    }

    fn same(&self, other: &Self) -> (same: bool) {
        self.operation_id == other.operation_id
            && self.service_id == other.service_id
            && self.logical_model.same(&other.logical_model)
            && self.desired_state == other.desired_state
            && self.action == other.action
            && self.journal_state == other.journal_state
            && same_optional(&self.failure_code, &other.failure_code)
    }
}

impl NodeModelCommandSummary {
    /// Returns the durable operation identity.
    pub fn operation_id(&self) -> (value: OperationId)
        ensures
            value == self@.operation_id,
    {
        self.operation_id
    }

    /// Returns the logical service identity.
    pub fn service_id(&self) -> (value: ModelServiceId)
        ensures
            value == self@.service_id,
    {
        self.service_id
    }

    /// Returns the user-facing logical model identity.
    pub fn logical_model(&self) -> (value: &LogicalModelName)
        ensures
            value@ == self@.logical_model,
    {
        &self.logical_model
    }

    /// Returns the latest service desired state.
    pub fn desired_state(&self) -> (value: ModelServiceDesiredState)
        ensures
            value == self@.desired_state,
    {
        self.desired_state
    }

    /// Returns the exact model lifecycle action.
    pub fn action(&self) -> (value: NodeModelAction)
        ensures
            value == self@.action,
    {
        self.action
    }

    /// Returns the durable cross-manager journal state.
    pub fn journal_state(&self) -> (value: NodeModelJournalState)
        ensures
            value == self@.journal_state,
    {
        self.journal_state
    }

    /// Returns only the stable redacted failure code.
    pub fn failure_code(&self) -> (value: &Option<TechnicalName>)
        ensures
            viewed(*value) == self@.failure_code,
    {
        &self.failure_code
    }
}

impl NodeModelCommandSummary {
    /// Creates one typed command projection for transport.
    pub fn new(
        operation_id: OperationId,
        service_id: ModelServiceId,
        logical_model: LogicalModelName,
        desired_state: ModelServiceDesiredState,
        action: NodeModelAction,
        journal_state: NodeModelJournalState,
        failure_code: Option<TechnicalName>,
    ) -> (value: Self)
        ensures
            value@ == (NodeModelCommandSummaryView {
                operation_id: operation_id,
                service_id: service_id,
                logical_model: logical_model@,
                desired_state: desired_state,
                action: action,
                journal_state: journal_state,
                failure_code: viewed(failure_code),
            }),
    {
        NodeModelCommandSummary {
            operation_id,
            service_id,
            logical_model,
            desired_state,
            action,
            journal_state,
            failure_code,
        }
    }
}

/// Projects one signed runtime update decision without exposing catalog internals.
#[derive(Debug)]
pub struct NodeModelUpdateSummary {
    pub service_id: ModelServiceId,
    pub logical_model: LogicalModelName,
    pub disposition: NodeModelUpdateDisposition,
    pub placement_group_count: usize,
    pub command: Option<NodeModelCommandSummary>,
}

/// What one [`NodeModelUpdateSummary`] holds.
pub struct NodeModelUpdateSummaryView {
    pub service_id: ModelServiceId,
    pub logical_model: Seq<char>,
    pub disposition: NodeModelUpdateDisposition,
    pub placement_group_count: nat,
    pub command: Option<NodeModelCommandSummaryView>,
}

impl View for NodeModelUpdateSummary {
    type V = NodeModelUpdateSummaryView;

    open spec fn view(&self) -> NodeModelUpdateSummaryView {
        NodeModelUpdateSummaryView {
            service_id: self.service_id,
            logical_model: self.logical_model@,
            disposition: self.disposition,
            placement_group_count: self.placement_group_count as nat,
            command: viewed(self.command),
        }
    }
}

impl Valued for NodeModelUpdateSummary {
    fn copy(&self) -> (copy: Self) {
        NodeModelUpdateSummary {
            service_id: self.service_id,
            logical_model: self.logical_model.copy(),
            disposition: self.disposition,
            placement_group_count: self.placement_group_count,
            command: copy_optional(&self.command),
        }
    }

    fn same(&self, other: &Self) -> (same: bool) {
        self.service_id == other.service_id
            && self.logical_model.same(&other.logical_model)
            && self.disposition == other.disposition
            && self.placement_group_count == other.placement_group_count
            && same_optional(&self.command, &other.command)
    }
}

impl NodeModelUpdateSummary {
    /// Returns the exact logical service identity.
    pub fn service_id(&self) -> (value: ModelServiceId)
        ensures
            value == self@.service_id,
    {
        self.service_id
    }

    /// Returns the user-facing logical model identity.
    pub fn logical_model(&self) -> (value: &LogicalModelName)
        ensures
            value@ == self@.logical_model,
    {
        &self.logical_model
    }

    /// Returns whether the service is current, has an update, or was updated.
    pub fn disposition(&self) -> (value: NodeModelUpdateDisposition)
        ensures
            value == self@.disposition,
    {
        self.disposition
    }

    /// Returns the number of independently replaced placement groups.
    pub fn placement_group_count(&self) -> (value: usize)
        ensures
            value == self@.placement_group_count,
    {
        self.placement_group_count
    }

    /// Returns the durable mutation projection only when an update executed.
    pub fn command(&self) -> (value: &Option<NodeModelCommandSummary>)
        ensures
            viewed(*value) == self@.command,
    {
        &self.command
    }
}

impl NodeModelUpdateSummary {
    /// Creates one bounded update projection from a coordinator decision.
    pub fn new(
        service_id: ModelServiceId,
        logical_model: LogicalModelName,
        disposition: NodeModelUpdateDisposition,
        placement_group_count: usize,
        command: Option<NodeModelCommandSummary>,
    ) -> (value: Self)
        ensures
            value@ == (NodeModelUpdateSummaryView {
                service_id: service_id,
                logical_model: logical_model@,
                disposition: disposition,
                placement_group_count: placement_group_count as nat,
                command: viewed(command),
            }),
    {
        NodeModelUpdateSummary {
            service_id,
            logical_model,
            disposition,
            placement_group_count,
            command,
        }
    }
}

/// Projects bounded model lifecycle history without exposing private journal bodies.
#[derive(Debug)]
pub struct NodeModelLogSummary {
    pub service_id: ModelServiceId,
    pub operation_ids: Vec<OperationId>,
    pub journal_operation_ids: Vec<OperationId>,
    pub failure_codes: Vec<TechnicalName>,
}

/// What one [`NodeModelLogSummary`] holds.
pub struct NodeModelLogSummaryView {
    pub service_id: ModelServiceId,
    pub operation_ids: Seq<OperationId>,
    pub journal_operation_ids: Seq<OperationId>,
    pub failure_codes: Seq<Seq<char>>,
}

impl View for NodeModelLogSummary {
    type V = NodeModelLogSummaryView;

    open spec fn view(&self) -> NodeModelLogSummaryView {
        NodeModelLogSummaryView {
            service_id: self.service_id,
            operation_ids: self.operation_ids@,
            journal_operation_ids: self.journal_operation_ids@,
            failure_codes: views(self.failure_codes@),
        }
    }
}

impl Valued for NodeModelLogSummary {
    fn copy(&self) -> (copy: Self) {
        NodeModelLogSummary {
            service_id: self.service_id,
            operation_ids: clone_ids(&self.operation_ids),
            journal_operation_ids: clone_ids(&self.journal_operation_ids),
            failure_codes: copy_all(&self.failure_codes),
        }
    }

    fn same(&self, other: &Self) -> (same: bool) {
        self.service_id == other.service_id
            && same_ids(&self.operation_ids, &other.operation_ids)
            && same_ids(&self.journal_operation_ids, &other.journal_operation_ids)
            && same_all(&self.failure_codes, &other.failure_codes)
    }
}

impl NodeModelLogSummary {
    /// Returns the exact logical service identity.
    pub fn service_id(&self) -> (value: ModelServiceId)
        ensures
            value == self@.service_id,
    {
        self.service_id
    }

    /// Returns every user-visible operation identity in coordinator order.
    pub fn operation_ids(&self) -> (values: &Vec<OperationId>)
        ensures
            values@ == self@.operation_ids,
    {
        &self.operation_ids
    }

    /// Returns every recovery-journal operation identity in coordinator order.
    pub fn journal_operation_ids(&self) -> (values: &Vec<OperationId>)
        ensures
            values@ == self@.journal_operation_ids,
    {
        &self.journal_operation_ids
    }

    /// Returns only stable redacted failure identities.
    pub fn failure_codes(&self) -> (values: &Vec<TechnicalName>)
        ensures
            views(values@) == self@.failure_codes,
    {
        &self.failure_codes
    }
}

impl NodeModelLogSummary {
    /// Creates one typed redacted log projection for transport.
    pub fn new(
        service_id: ModelServiceId,
        operation_ids: Vec<OperationId>,
        journal_operation_ids: Vec<OperationId>,
        failure_codes: Vec<TechnicalName>,
    ) -> (value: Self)
        ensures
            value@ == (NodeModelLogSummaryView {
                service_id: service_id,
                operation_ids: operation_ids@,
                journal_operation_ids: journal_operation_ids@,
                failure_codes: views(failure_codes@),
            }),
    {
        NodeModelLogSummary {
            service_id,
            operation_ids,
            journal_operation_ids,
            failure_codes,
        }
    }
}

/// Selects and bounds one opaque runtime log read under an exact model service.
#[derive(Debug)]
pub struct NodeModelRuntimeLogRequest {
    pub(crate) service_id: ModelServiceId,
    pub(crate) placement_group_id: Option<PlacementGroupId>,
    pub(crate) cursor: Option<PlacementLogCursor>,
    pub(crate) maximum_lines: u32,
    pub(crate) maximum_bytes: usize,
    pub(crate) wait: TimeSpan,
}

/// What one [`NodeModelRuntimeLogRequest`] holds.
pub struct NodeModelRuntimeLogRequestView {
    pub service_id: ModelServiceId,
    pub placement_group_id: Option<PlacementGroupId>,
    pub cursor: Option<Seq<char>>,
    pub maximum_lines: u32,
    pub maximum_bytes: usize,
    pub wait: TimeSpan,
}

impl View for NodeModelRuntimeLogRequest {
    type V = NodeModelRuntimeLogRequestView;

    open(crate) spec fn view(&self) -> NodeModelRuntimeLogRequestView {
        NodeModelRuntimeLogRequestView {
            service_id: self.service_id,
            placement_group_id: self.placement_group_id,
            cursor: viewed(self.cursor),
            maximum_lines: self.maximum_lines,
            maximum_bytes: self.maximum_bytes,
            wait: self.wait,
        }
    }
}

impl Valued for NodeModelRuntimeLogRequest {
    fn copy(&self) -> (copy: Self) {
        proof {
            use_type_invariant(self);
        }
        NodeModelRuntimeLogRequest {
            service_id: self.service_id,
            placement_group_id: self.placement_group_id,
            cursor: copy_optional(&self.cursor),
            maximum_lines: self.maximum_lines,
            maximum_bytes: self.maximum_bytes,
            wait: self.wait,
        }
    }

    fn same(&self, other: &Self) -> (same: bool) {
        self.service_id == other.service_id
            && self.placement_group_id == other.placement_group_id
            && same_optional(&self.cursor, &other.cursor)
            && self.maximum_lines == other.maximum_lines
            && self.maximum_bytes == other.maximum_bytes
            && self.wait == other.wait
    }
}

impl NodeModelRuntimeLogRequest {
    #[verifier::type_invariant]
    pub(crate) open(crate) spec fn is_valid(self) -> bool {
        log_bounds_valid(self@.maximum_lines, self@.maximum_bytes, self@.wait)
    }

    /// Returns the exact logical service selected by the caller.
    pub fn service_id(&self) -> (value: ModelServiceId)
        ensures
            value == self@.service_id,
    {
        self.service_id
    }

    /// Returns an exact placement group or none for unambiguous service resolution.
    pub fn placement_group_id(&self) -> (value: Option<PlacementGroupId>)
        ensures
            value == self@.placement_group_id,
    {
        self.placement_group_id
    }

    /// Returns the prior provider cursor when continuation was requested.
    pub fn cursor(&self) -> (value: &Option<PlacementLogCursor>)
        ensures
            viewed(*value) == self@.cursor,
    {
        &self.cursor
    }

    /// Returns the maximum logical lines accepted from the placement owner.
    pub fn maximum_lines(&self) -> (value: u32)
        ensures
            value == self@.maximum_lines,
    {
        self.maximum_lines
    }

    /// Returns the maximum opaque byte count accepted in one response.
    pub fn maximum_bytes(&self) -> (value: usize)
        ensures
            value == self@.maximum_bytes,
    {
        self.maximum_bytes
    }

    /// Returns the bounded provider wait used by a following client.
    pub fn wait(&self) -> (value: TimeSpan)
        ensures
            value == self@.wait,
    {
        self.wait
    }
}

/// Bounds that one log read must keep: at most ten thousand lines, at most half a mebibyte, and
/// a wait of at most one second in whole milliseconds.
pub open spec fn log_bounds_valid(
    maximum_lines: u32,
    maximum_bytes: usize,
    wait: TimeSpan,
) -> bool {
    &&& 0 < maximum_lines <= 10_000
    &&& 0 < maximum_bytes <= 524_288
    &&& wait.nanoseconds <= 1_000_000_000
    &&& wait.nanoseconds % 1_000_000 == 0
}

impl NodeModelRuntimeLogRequest {
    /// Creates one bounded immediate read or cancellable long-poll request.
    pub fn new(
        service_id: ModelServiceId,
        placement_group_id: Option<PlacementGroupId>,
        cursor: Option<PlacementLogCursor>,
        maximum_lines: u32,
        maximum_bytes: usize,
        wait: TimeSpan,
    ) -> (result: Result<Self, NodeModelError>)
        ensures
            outcome(result) == (if log_bounds_valid(maximum_lines, maximum_bytes, wait) {
                Ok(
                    NodeModelRuntimeLogRequestView {
                        service_id,
                        placement_group_id,
                        cursor: viewed(cursor),
                        maximum_lines,
                        maximum_bytes,
                        wait,
                    },
                )
            } else {
                Err(
                    NodeModelError::InvalidRequest {
                        reason: "model runtime log read bounds are invalid",
                    },
                )
            }),
    {
        if maximum_lines == 0 || maximum_lines > MAXIMUM_RUNTIME_LOG_LINES || maximum_bytes == 0
            || maximum_bytes > MAXIMUM_RUNTIME_LOG_BYTES || wait.nanoseconds
            > MAXIMUM_RUNTIME_LOG_WAIT_NANOSECONDS || wait.nanoseconds
            % NANOSECONDS_PER_MILLISECOND != 0 {
            return Err(
                NodeModelError::InvalidRequest { reason: "model runtime log read bounds are invalid" },
            );
        }
        Ok(
            NodeModelRuntimeLogRequest {
                service_id,
                placement_group_id,
                cursor,
                maximum_lines,
                maximum_bytes,
                wait,
            },
        )
    }
}

/// Projects one Placement-owned opaque batch through the Node service boundary.
#[derive(Debug)]
pub struct NodeModelRuntimeLogBatch {
    pub service_id: ModelServiceId,
    pub placement: PlacementLogBatch,
}

/// What one [`NodeModelRuntimeLogBatch`] holds.
pub struct NodeModelRuntimeLogBatchView {
    pub service_id: ModelServiceId,
    pub placement: PlacementLogBatchView,
}

impl View for NodeModelRuntimeLogBatch {
    type V = NodeModelRuntimeLogBatchView;

    open spec fn view(&self) -> NodeModelRuntimeLogBatchView {
        NodeModelRuntimeLogBatchView {
            service_id: self.service_id,
            placement: self.placement@,
        }
    }
}

impl Valued for NodeModelRuntimeLogBatch {
    fn copy(&self) -> (copy: Self) {
        NodeModelRuntimeLogBatch {
            service_id: self.service_id,
            placement: self.placement.copy(),
        }
    }

    fn same(&self, other: &Self) -> (same: bool) {
        self.service_id == other.service_id
            && self.placement.same(&other.placement)
    }
}

impl NodeModelRuntimeLogBatch {
    /// Returns the exact logical service selected by the caller.
    pub fn service_id(&self) -> (value: ModelServiceId)
        ensures
            value == self@.service_id,
    {
        self.service_id
    }

    /// Returns the exact Placement-owned batch without interpreting runtime bytes.
    pub fn placement(&self) -> (value: &PlacementLogBatch)
        ensures
            value@ == self@.placement,
    {
        &self.placement
    }
}

impl NodeModelRuntimeLogBatch {
    /// Creates one service-bound projection from an already validated batch.
    pub fn new(
        service_id: ModelServiceId,
        placement: PlacementLogBatch,
    ) -> (value: Self)
        ensures
            value@ == (NodeModelRuntimeLogBatchView {
                service_id: service_id,
                placement: placement@,
            }),
    {
        NodeModelRuntimeLogBatch {
            service_id,
            placement,
        }
    }
}

/// Identifies one exact immutable runtime in a non-mutating rollback preview.
#[derive(Debug)]
pub struct NodeModelRollbackRuntime {
    pub candidate_id: RuntimeCandidateId,
    pub version: RuntimeVersion,
    pub target_id: TargetId,
    pub source: RuntimeSource,
}

/// What one [`NodeModelRollbackRuntime`] holds.
pub struct NodeModelRollbackRuntimeView {
    pub candidate_id: Seq<char>,
    pub version: Seq<char>,
    pub target_id: Seq<char>,
    pub source: Seq<char>,
}

impl View for NodeModelRollbackRuntime {
    type V = NodeModelRollbackRuntimeView;

    open spec fn view(&self) -> NodeModelRollbackRuntimeView {
        NodeModelRollbackRuntimeView {
            candidate_id: self.candidate_id@,
            version: self.version@,
            target_id: self.target_id@,
            source: self.source@,
        }
    }
}

impl Valued for NodeModelRollbackRuntime {
    fn copy(&self) -> (copy: Self) {
        NodeModelRollbackRuntime {
            candidate_id: self.candidate_id.copy(),
            version: self.version.copy(),
            target_id: self.target_id.copy(),
            source: self.source.copy(),
        }
    }

    fn same(&self, other: &Self) -> (same: bool) {
        self.candidate_id.same(&other.candidate_id)
            && self.version.same(&other.version)
            && self.target_id.same(&other.target_id)
            && self.source.same(&other.source)
    }
}

impl NodeModelRollbackRuntime {
    /// Returns the stable runtime candidate identity.
    pub fn candidate_id(&self) -> (value: &RuntimeCandidateId)
        ensures
            value@ == self@.candidate_id,
    {
        &self.candidate_id
    }

    /// Returns the exact runtime version.
    pub fn version(&self) -> (value: &RuntimeVersion)
        ensures
            value@ == self@.version,
    {
        &self.version
    }

    /// Returns the exact target identity.
    pub fn target_id(&self) -> (value: &TargetId)
        ensures
            value@ == self@.target_id,
    {
        &self.target_id
    }

    /// Returns the exact immutable distribution source.
    pub fn source(&self) -> (value: &RuntimeSource)
        ensures
            value@ == self@.source,
    {
        &self.source
    }
}

impl NodeModelRollbackRuntime {
    /// Creates one exact runtime identity without exposing engine or model artifact detail.
    pub fn new(
        candidate_id: RuntimeCandidateId,
        version: RuntimeVersion,
        target_id: TargetId,
        source: RuntimeSource,
    ) -> (value: Self)
        ensures
            value@ == (NodeModelRollbackRuntimeView {
                candidate_id: candidate_id@,
                version: version@,
                target_id: target_id@,
                source: source@,
            }),
    {
        NodeModelRollbackRuntime {
            candidate_id,
            version,
            target_id,
            source,
        }
    }
}

/// Describes one exact current-to-retained placement-group transition.
#[derive(Debug)]
pub struct NodeModelRollbackGroupPreview {
    pub current_group_id: PlacementGroupId,
    pub previous_group_id: PlacementGroupId,
    pub node_ids: Vec<NodeId>,
    pub current: NodeModelRollbackRuntime,
    pub previous: NodeModelRollbackRuntime,
}

/// What one [`NodeModelRollbackGroupPreview`] holds.
pub struct NodeModelRollbackGroupPreviewView {
    pub current_group_id: PlacementGroupId,
    pub previous_group_id: PlacementGroupId,
    pub node_ids: Seq<NodeId>,
    pub current: NodeModelRollbackRuntimeView,
    pub previous: NodeModelRollbackRuntimeView,
}

impl View for NodeModelRollbackGroupPreview {
    type V = NodeModelRollbackGroupPreviewView;

    open spec fn view(&self) -> NodeModelRollbackGroupPreviewView {
        NodeModelRollbackGroupPreviewView {
            current_group_id: self.current_group_id,
            previous_group_id: self.previous_group_id,
            node_ids: self.node_ids@,
            current: self.current@,
            previous: self.previous@,
        }
    }
}

impl Valued for NodeModelRollbackGroupPreview {
    fn copy(&self) -> (copy: Self) {
        NodeModelRollbackGroupPreview {
            current_group_id: self.current_group_id,
            previous_group_id: self.previous_group_id,
            node_ids: clone_ids(&self.node_ids),
            current: self.current.copy(),
            previous: self.previous.copy(),
        }
    }

    fn same(&self, other: &Self) -> (same: bool) {
        self.current_group_id == other.current_group_id
            && self.previous_group_id == other.previous_group_id
            && same_ids(&self.node_ids, &other.node_ids)
            && self.current.same(&other.current)
            && self.previous.same(&other.previous)
    }
}

impl NodeModelRollbackGroupPreview {
    /// Returns the currently active placement-group identity.
    pub fn current_group_id(&self) -> (value: PlacementGroupId)
        ensures
            value == self@.current_group_id,
    {
        self.current_group_id
    }

    /// Returns the retained prior placement-group identity.
    pub fn previous_group_id(&self) -> (value: PlacementGroupId)
        ensures
            value == self@.previous_group_id,
    {
        self.previous_group_id
    }

    /// Returns the exact unchanged node topology.
    pub fn node_ids(&self) -> (values: &Vec<NodeId>)
        ensures
            values@ == self@.node_ids,
    {
        &self.node_ids
    }

    /// Returns the current immutable runtime identity.
    pub fn current(&self) -> (value: &NodeModelRollbackRuntime)
        ensures
            value@ == self@.current,
    {
        &self.current
    }

    /// Returns the retained previous immutable runtime identity.
    pub fn previous(&self) -> (value: &NodeModelRollbackRuntime)
        ensures
            value@ == self@.previous,
    {
        &self.previous
    }
}

impl NodeModelRollbackGroupPreview {
    /// Creates one same-topology immutable runtime transition.
    pub fn new(
        current_group_id: PlacementGroupId,
        previous_group_id: PlacementGroupId,
        node_ids: Vec<NodeId>,
        current: NodeModelRollbackRuntime,
        previous: NodeModelRollbackRuntime,
    ) -> (value: Self)
        ensures
            value@ == (NodeModelRollbackGroupPreviewView {
                current_group_id: current_group_id,
                previous_group_id: previous_group_id,
                node_ids: node_ids@,
                current: current@,
                previous: previous@,
            }),
    {
        NodeModelRollbackGroupPreview {
            current_group_id,
            previous_group_id,
            node_ids,
            current,
            previous,
        }
    }
}

/// One transition that changes the runtime bytes and nothing else.
pub open spec fn rollback_group_valid(group: NodeModelRollbackGroupPreviewView) -> bool {
    &&& group.current_group_id != group.previous_group_id
    &&& bounded_nodes(group.node_ids)
    &&& group.current.candidate_id == group.previous.candidate_id
    &&& group.current.target_id == group.previous.target_id
    &&& group.current.version != group.previous.version
    &&& group.current.source != group.previous.source
}

impl NodeModelRollbackGroupPreview {
    /// Restores one private-wire transition while rechecking topology and runtime invariants.
    pub fn restore(
        current_group_id: PlacementGroupId,
        previous_group_id: PlacementGroupId,
        node_ids: Vec<NodeId>,
        current: NodeModelRollbackRuntime,
        previous: NodeModelRollbackRuntime,
    ) -> (result: Result<Self, NodeModelError>)
        ensures
            ({
                let group = NodeModelRollbackGroupPreviewView {
                    current_group_id,
                    previous_group_id,
                    node_ids: node_ids@,
                    current: current@,
                    previous: previous@,
                };
                outcome(result) == if rollback_group_valid(group) {
                    Ok(group)
                } else {
                    Err(NodeModelError::InvalidRequest { reason: "rollback group preview is invalid" })
                }
            }),
    {
        if current_group_id == previous_group_id || !nodes_are_bounded(&node_ids)
            || !current.candidate_id.same(&previous.candidate_id) || !current.target_id.same(
            &previous.target_id,
        ) || current.version.same(&previous.version) || current.source.same(&previous.source) {
            return Err(
                NodeModelError::InvalidRequest { reason: "rollback group preview is invalid" },
            );
        }
        Ok(NodeModelRollbackGroupPreview::new(
            current_group_id,
            previous_group_id,
            node_ids,
            current,
            previous,
        ))
    }
}

/// Describes the exact non-mutating current-to-retained rollback plan.
#[derive(Debug)]
pub struct NodeModelRollbackPreview {
    pub service_id: ModelServiceId,
    pub logical_model: LogicalModelName,
    pub target_id: Option<TargetId>,
    pub groups: Vec<NodeModelRollbackGroupPreview>,
}

/// What one [`NodeModelRollbackPreview`] holds.
pub struct NodeModelRollbackPreviewView {
    pub service_id: ModelServiceId,
    pub logical_model: Seq<char>,
    pub target_id: Option<Seq<char>>,
    pub groups: Seq<NodeModelRollbackGroupPreviewView>,
}

impl View for NodeModelRollbackPreview {
    type V = NodeModelRollbackPreviewView;

    open spec fn view(&self) -> NodeModelRollbackPreviewView {
        NodeModelRollbackPreviewView {
            service_id: self.service_id,
            logical_model: self.logical_model@,
            target_id: viewed(self.target_id),
            groups: views(self.groups@),
        }
    }
}

impl Valued for NodeModelRollbackPreview {
    fn copy(&self) -> (copy: Self) {
        NodeModelRollbackPreview {
            service_id: self.service_id,
            logical_model: self.logical_model.copy(),
            target_id: copy_optional(&self.target_id),
            groups: copy_all(&self.groups),
        }
    }

    fn same(&self, other: &Self) -> (same: bool) {
        self.service_id == other.service_id
            && self.logical_model.same(&other.logical_model)
            && same_optional(&self.target_id, &other.target_id)
            && same_all(&self.groups, &other.groups)
    }
}

impl NodeModelRollbackPreview {
    /// Returns the exact logical service selected for rollback.
    pub fn service_id(&self) -> (value: ModelServiceId)
        ensures
            value == self@.service_id,
    {
        self.service_id
    }

    /// Returns the user-facing logical model identity.
    pub fn logical_model(&self) -> (value: &LogicalModelName)
        ensures
            value@ == self@.logical_model,
    {
        &self.logical_model
    }

    /// Returns the optional exact runtime target filter.
    pub fn target_id(&self) -> (value: &Option<TargetId>)
        ensures
            viewed(*value) == self@.target_id,
    {
        &self.target_id
    }

    /// Returns every exact current-to-retained group transition.
    pub fn groups(&self) -> (values: &Vec<NodeModelRollbackGroupPreview>)
        ensures
            views(values@) == self@.groups,
    {
        &self.groups
    }
}

impl NodeModelRollbackPreview {
    /// Creates one typed preview only after the coordinator validates every retained group.
    pub fn new(
        service_id: ModelServiceId,
        logical_model: LogicalModelName,
        target_id: Option<TargetId>,
        groups: Vec<NodeModelRollbackGroupPreview>,
    ) -> (value: Self)
        ensures
            value@ == (NodeModelRollbackPreviewView {
                service_id: service_id,
                logical_model: logical_model@,
                target_id: viewed(target_id),
                groups: views(groups@),
            }),
    {
        NodeModelRollbackPreview {
            service_id,
            logical_model,
            target_id,
            groups,
        }
    }
}

/// The current groups of one rollback plan.
pub open spec fn current_group_ids(
    groups: Seq<NodeModelRollbackGroupPreviewView>,
) -> Seq<PlacementGroupId> {
    Seq::new(groups.len(), |i: int| groups[i].current_group_id)
}

/// The retained groups of one rollback plan.
pub open spec fn previous_group_ids(
    groups: Seq<NodeModelRollbackGroupPreviewView>,
) -> Seq<PlacementGroupId> {
    Seq::new(groups.len(), |i: int| groups[i].previous_group_id)
}

/// One bounded plan with distinct groups inside the requested target.
pub open spec fn rollback_preview_valid(preview: NodeModelRollbackPreviewView) -> bool {
    &&& 0 < preview.groups.len() <= MAX_INSTALL_GROUPS
    &&& current_group_ids(preview.groups).no_duplicates()
    &&& previous_group_ids(preview.groups).no_duplicates()
    &&& preview.target_id matches Some(target) ==> forall|i: int|
        0 <= i < preview.groups.len() ==> (#[trigger] preview.groups[i]).current.target_id == target
}

fn preview_groups_match(
    groups: &Vec<NodeModelRollbackGroupPreview>,
    target: &TargetId,
) -> (matches: bool)
    ensures
        matches == forall|i: int|
            0 <= i < groups@.len() ==> (#[trigger] views(groups@)[i]).current.target_id == target@,
{
    let mut i: usize = 0;
    while i < groups.len()
        invariant
            i <= groups@.len(),
            forall|k: int|
                0 <= k < i ==> (#[trigger] views(groups@)[k]).current.target_id == target@,
        decreases groups@.len() - i,
    {
        if !groups[i].current.target_id.same(target) {
            assert(views(groups@)[i as int].current.target_id != target@);
            return false;
        }
        i += 1;
    }
    true
}

fn preview_group_ids(groups: &Vec<NodeModelRollbackGroupPreview>) -> (ids: (
    Vec<PlacementGroupId>,
    Vec<PlacementGroupId>,
))
    ensures
        ids.0@ == current_group_ids(views(groups@)),
        ids.1@ == previous_group_ids(views(groups@)),
{
    let mut current: Vec<PlacementGroupId> = Vec::new();
    let mut previous: Vec<PlacementGroupId> = Vec::new();
    let mut i: usize = 0;
    while i < groups.len()
        invariant
            i <= groups@.len(),
            current@.len() == i,
            previous@.len() == i,
            forall|k: int|
                0 <= k < i ==> current@[k] == (#[trigger] views(groups@)[k]).current_group_id
                    && previous@[k] == views(groups@)[k].previous_group_id,
        decreases groups@.len() - i,
    {
        current.push(groups[i].current_group_id);
        previous.push(groups[i].previous_group_id);
        i += 1;
    }
    assert(current@ =~= current_group_ids(views(groups@)));
    assert(previous@ =~= previous_group_ids(views(groups@)));
    (current, previous)
}

impl NodeModelRollbackPreview {
    /// Restores one private-wire preview while rechecking bounds, identity, and target scope.
    pub fn restore(
        service_id: ModelServiceId,
        logical_model: LogicalModelName,
        target_id: Option<TargetId>,
        groups: Vec<NodeModelRollbackGroupPreview>,
    ) -> (result: Result<Self, NodeModelError>)
        ensures
            ({
                let preview = NodeModelRollbackPreviewView {
                    service_id,
                    logical_model: logical_model@,
                    target_id: viewed(target_id),
                    groups: views(groups@),
                };
                outcome(result) == if rollback_preview_valid(preview) {
                    Ok(preview)
                } else {
                    Err(NodeModelError::InvalidRequest { reason: "rollback preview is invalid" })
                }
            }),
    {
        let (current, previous) = preview_group_ids(&groups);
        let in_scope = match &target_id {
            Some(target) => preview_groups_match(&groups, target),
            None => true,
        };
        if groups.len() == 0 || groups.len() > MAX_INSTALL_GROUPS || !distinct_ids(&current)
            || !distinct_ids(&previous) || !in_scope {
            return Err(NodeModelError::InvalidRequest { reason: "rollback preview is invalid" });
        }
        Ok(NodeModelRollbackPreview::new(service_id, logical_model, target_id, groups))
    }
}

} // verus!
