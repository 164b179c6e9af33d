//! The durable journal of model-service commands: its stored form, its invariants and the
//! decisions around its commits.

use vstd::prelude::*;

use crate::database::{
    DatabaseCollection, DatabaseCommitDisposition, DatabaseError, DatabaseMutation, DatabaseResult,
    DatabaseRevision, DatabaseWriteResult, Stored,
};
use crate::entity::PlacementGroupState;
use crate::identity::{
    all_identities, contains_id, distinct_ids, id_of, id_texts, ids_of, increasing_ids,
    law_identity_text, law_identity_texts, parse_ids, same_ids, strictly_increasing, texts_of_ids,
    Id, NodeId, OperationId, PlacementGroupId, RuntimeInstallationId, UnixMilliseconds,
};
use crate::node_model_contract::{
    bounded_nodes, nodes_of_retained, planned_groups, planned_placement_group_id,
    planned_restoration_group, planned_restoration_group_id, receipt_key, retained_group,
    retained_node_ids, InitialGroupState, NodeModelAction, NodeModelError, NodeModelInstallGroup,
    NodeModelInstallGroupView, NodeModelJournal, NodeModelJournalState, NodeModelJournalView,
    NodeModelRemovalRetention, NodeModelRetainedGroup, NodeModelRetainedGroupView,
    NodeModelRetainedNode, NodeModelRuntimeDisposition, NodeModelRuntimeReceipt,
    NodeModelRuntimeReceiptView, VersionedNodeModelJournal, VersionedNodeModelJournalView,
    MAX_INSTALL_GROUPS, MAX_NODES_PER_GROUP,
};
use crate::sequence::{
    copy_all, copy_optional, found, is_strictly_sorted, key_lt, listed, outcome, same_all,
    same_optional, viewed, views, Valued,
};
use crate::text::{decimal, decimal_text, lower_hex, text_is};

verus! {

// ---------------------------------------------------------------------------
// Stored names
// ---------------------------------------------------------------------------

/// The stored name of one placement-group state.
pub open spec fn group_state_name(state: PlacementGroupState) -> Seq<char> {
    match state {
        PlacementGroupState::Staging => "staging"@,
        PlacementGroupState::Staged => "staged"@,
        PlacementGroupState::Starting => "starting"@,
        PlacementGroupState::Running => "running"@,
        PlacementGroupState::Degraded => "degraded"@,
        PlacementGroupState::Stopping => "stopping"@,
        PlacementGroupState::Stopped => "stopped"@,
        PlacementGroupState::Recovering => "recovering"@,
        PlacementGroupState::Removing => "removing"@,
        PlacementGroupState::Removed => "removed"@,
        PlacementGroupState::Failed => "failed"@,
    }
}

/// Returns one stable stored placement-group state name.
pub fn placement_group_state_name(state: PlacementGroupState) -> (name: &'static str)
    ensures
        name@ == group_state_name(state),
{
    match state {
        PlacementGroupState::Staging => "staging",
        PlacementGroupState::Staged => "staged",
        PlacementGroupState::Starting => "starting",
        PlacementGroupState::Running => "running",
        PlacementGroupState::Degraded => "degraded",
        PlacementGroupState::Stopping => "stopping",
        PlacementGroupState::Stopped => "stopped",
        PlacementGroupState::Recovering => "recovering",
        PlacementGroupState::Removing => "removing",
        PlacementGroupState::Removed => "removed",
        PlacementGroupState::Failed => "failed",
    }
}

/// The placement-group state that one stored name stands for.
pub open spec fn group_state_of(value: Seq<char>) -> Option<PlacementGroupState> {
    if value == "staging"@ {
        Some(PlacementGroupState::Staging)
    } else if value == "staged"@ {
        Some(PlacementGroupState::Staged)
    } else if value == "starting"@ {
        Some(PlacementGroupState::Starting)
    } else if value == "running"@ {
        Some(PlacementGroupState::Running)
    } else if value == "degraded"@ {
        Some(PlacementGroupState::Degraded)
    } else if value == "stopping"@ {
        Some(PlacementGroupState::Stopping)
    } else if value == "stopped"@ {
        Some(PlacementGroupState::Stopped)
    } else if value == "recovering"@ {
        Some(PlacementGroupState::Recovering)
    } else if value == "removing"@ {
        Some(PlacementGroupState::Removing)
    } else if value == "removed"@ {
        Some(PlacementGroupState::Removed)
    } else if value == "failed"@ {
        Some(PlacementGroupState::Failed)
    } else {
        None
    }
}

/// Reads one stored placement-group state.
pub fn placement_group_state(value: &str) -> (result: Option<PlacementGroupState>)
    ensures
        result == group_state_of(value@),
{
    if text_is(value, "staging") {
        Some(PlacementGroupState::Staging)
    } else if text_is(value, "staged") {
        Some(PlacementGroupState::Staged)
    } else if text_is(value, "starting") {
        Some(PlacementGroupState::Starting)
    } else if text_is(value, "running") {
        Some(PlacementGroupState::Running)
    } else if text_is(value, "degraded") {
        Some(PlacementGroupState::Degraded)
    } else if text_is(value, "stopping") {
        Some(PlacementGroupState::Stopping)
    } else if text_is(value, "stopped") {
        Some(PlacementGroupState::Stopped)
    } else if text_is(value, "recovering") {
        Some(PlacementGroupState::Recovering)
    } else if text_is(value, "removing") {
        Some(PlacementGroupState::Removing)
    } else if text_is(value, "removed") {
        Some(PlacementGroupState::Removed)
    } else if text_is(value, "failed") {
        Some(PlacementGroupState::Failed)
    } else {
        None
    }
}

/// Reading the name of one placement-group state gives it back.
pub proof fn law_placement_group_state_name(value: PlacementGroupState)
    ensures
        group_state_of(group_state_name(value)) == Some(value),
{
    reveal_strlit("staging");
    assert("staging"@.len() == 7);
    reveal_strlit("staged");
    assert("staged"@.len() == 6);
    reveal_strlit("starting");
    assert("starting"@.len() == 8);
    reveal_strlit("running");
    assert("running"@.len() == 7);
    reveal_strlit("degraded");
    assert("degraded"@.len() == 8);
    reveal_strlit("stopping");
    assert("stopping"@.len() == 8);
    reveal_strlit("stopped");
    assert("stopped"@.len() == 7);
    reveal_strlit("recovering");
    assert("recovering"@.len() == 10);
    reveal_strlit("removing");
    assert("removing"@.len() == 8);
    reveal_strlit("removed");
    assert("removed"@.len() == 7);
    reveal_strlit("failed");
    assert("failed"@.len() == 6);
    assert("running"@[0] != "staging"@[0]);
    assert("degraded"@[0] != "starting"@[0]);
    assert("stopping"@[2] != "starting"@[2]);
    assert("stopping"@[0] != "degraded"@[0]);
    assert("stopped"@[2] != "staging"@[2]);
    assert("stopped"@[0] != "running"@[0]);
    assert("removing"@[0] != "starting"@[0]);
    assert("removing"@[0] != "degraded"@[0]);
    assert("removing"@[0] != "stopping"@[0]);
    assert("removed"@[0] != "staging"@[0]);
    assert("removed"@[1] != "running"@[1]);
    assert("removed"@[0] != "stopped"@[0]);
    assert("failed"@[0] != "staged"@[0]);
}

/// The model action that one stored name stands for.
pub open spec fn action_of(value: Seq<char>) -> Option<NodeModelAction> {
    if value == "install"@ {
        Some(NodeModelAction::Install)
    } else if value == "update"@ {
        Some(NodeModelAction::Update)
    } else if value == "pause"@ {
        Some(NodeModelAction::Pause)
    } else if value == "resume"@ {
        Some(NodeModelAction::Resume)
    } else if value == "restart"@ {
        Some(NodeModelAction::Restart)
    } else if value == "recover"@ {
        Some(NodeModelAction::Recover)
    } else if value == "remove"@ {
        Some(NodeModelAction::Remove)
    } else if value == "rollback"@ {
        Some(NodeModelAction::Rollback)
    } else {
        None
    }
}

/// Reads one stored model action.
pub fn action(value: &str) -> (result: Option<NodeModelAction>)
    ensures
        result == action_of(value@),
{
    if text_is(value, "install") {
        Some(NodeModelAction::Install)
    } else if text_is(value, "update") {
        Some(NodeModelAction::Update)
    } else if text_is(value, "pause") {
        Some(NodeModelAction::Pause)
    } else if text_is(value, "resume") {
        Some(NodeModelAction::Resume)
    } else if text_is(value, "restart") {
        Some(NodeModelAction::Restart)
    } else if text_is(value, "recover") {
        Some(NodeModelAction::Recover)
    } else if text_is(value, "remove") {
        Some(NodeModelAction::Remove)
    } else if text_is(value, "rollback") {
        Some(NodeModelAction::Rollback)
    } else {
        None
    }
}

/// Reading the name of one model action gives it back.
pub proof fn law_action_name(value: NodeModelAction)
    ensures
        action_of(value.name()) == Some(value),
{
    reveal_strlit("install");
    assert("install"@.len() == 7);
    reveal_strlit("update");
    assert("update"@.len() == 6);
    reveal_strlit("pause");
    assert("pause"@.len() == 5);
    reveal_strlit("resume");
    assert("resume"@.len() == 6);
    reveal_strlit("restart");
    assert("restart"@.len() == 7);
    reveal_strlit("recover");
    assert("recover"@.len() == 7);
    reveal_strlit("remove");
    assert("remove"@.len() == 6);
    reveal_strlit("rollback");
    assert("rollback"@.len() == 8);
    assert("resume"@[0] != "update"@[0]);
    assert("restart"@[0] != "install"@[0]);
    assert("recover"@[0] != "install"@[0]);
    assert("recover"@[2] != "restart"@[2]);
    assert("remove"@[0] != "update"@[0]);
    assert("remove"@[2] != "resume"@[2]);
}

/// The runtime disposition that one stored name stands for.
pub open spec fn disposition_of(value: Seq<char>) -> Option<NodeModelRuntimeDisposition> {
    if value == "install_pending"@ {
        Some(NodeModelRuntimeDisposition::InstallPending)
    } else if value == "created"@ {
        Some(NodeModelRuntimeDisposition::Created)
    } else if value == "reused"@ {
        Some(NodeModelRuntimeDisposition::Reused)
    } else if value == "ownership_unknown"@ {
        Some(NodeModelRuntimeDisposition::OwnershipUnknown)
    } else {
        None
    }
}

/// Reads one stored runtime disposition.
pub fn runtime_disposition(value: &str) -> (result: Option<NodeModelRuntimeDisposition>)
    ensures
        result == disposition_of(value@),
{
    if text_is(value, "install_pending") {
        Some(NodeModelRuntimeDisposition::InstallPending)
    } else if text_is(value, "created") {
        Some(NodeModelRuntimeDisposition::Created)
    } else if text_is(value, "reused") {
        Some(NodeModelRuntimeDisposition::Reused)
    } else if text_is(value, "ownership_unknown") {
        Some(NodeModelRuntimeDisposition::OwnershipUnknown)
    } else {
        None
    }
}

/// Reading the name of one runtime disposition gives it back.
pub proof fn law_runtime_disposition_name(value: NodeModelRuntimeDisposition)
    ensures
        disposition_of(value.name()) == Some(value),
{
    reveal_strlit("install_pending");
    assert("install_pending"@.len() == 15);
    reveal_strlit("created");
    assert("created"@.len() == 7);
    reveal_strlit("reused");
    assert("reused"@.len() == 6);
    reveal_strlit("ownership_unknown");
    assert("ownership_unknown"@.len() == 17);
}

/// The removal retention that one stored name stands for.
pub open spec fn retention_of(value: Seq<char>) -> Option<NodeModelRemovalRetention> {
    if value == "remove_unreferenced_runtimes"@ {
        Some(NodeModelRemovalRetention::RemoveUnreferencedRuntimes)
    } else if value == "preserve_models"@ {
        Some(NodeModelRemovalRetention::PreserveModels)
    } else {
        None
    }
}

/// Reads one stored removal retention.
pub fn removal_runtime_retention(value: &str) -> (result: Option<NodeModelRemovalRetention>)
    ensures
        result == retention_of(value@),
{
    if text_is(value, "remove_unreferenced_runtimes") {
        Some(NodeModelRemovalRetention::RemoveUnreferencedRuntimes)
    } else if text_is(value, "preserve_models") {
        Some(NodeModelRemovalRetention::PreserveModels)
    } else {
        None
    }
}

/// Reading the name of one removal retention gives it back.
pub proof fn law_removal_runtime_retention_name(value: NodeModelRemovalRetention)
    ensures
        retention_of(value.name()) == Some(value),
{
    reveal_strlit("remove_unreferenced_runtimes");
    assert("remove_unreferenced_runtimes"@.len() == 28);
    reveal_strlit("preserve_models");
    assert("preserve_models"@.len() == 15);
}

/// The journal state that one stored name stands for.
pub open spec fn journal_state_of(value: Seq<char>) -> Option<NodeModelJournalState> {
    if value == "prepared"@ {
        Some(NodeModelJournalState::Prepared)
    } else if value == "executing"@ {
        Some(NodeModelJournalState::Executing)
    } else if value == "compensating"@ {
        Some(NodeModelJournalState::Compensating)
    } else if value == "cleanup_pending"@ {
        Some(NodeModelJournalState::CleanupPending)
    } else if value == "succeeded"@ {
        Some(NodeModelJournalState::Succeeded)
    } else if value == "rolled_back"@ {
        Some(NodeModelJournalState::RolledBack)
    } else if value == "failed"@ {
        Some(NodeModelJournalState::Failed)
    } else {
        None
    }
}

/// Reads one stored journal state.
pub fn journal_state(value: &str) -> (result: Option<NodeModelJournalState>)
    ensures
        result == journal_state_of(value@),
{
    if text_is(value, "prepared") {
        Some(NodeModelJournalState::Prepared)
    } else if text_is(value, "executing") {
        Some(NodeModelJournalState::Executing)
    } else if text_is(value, "compensating") {
        Some(NodeModelJournalState::Compensating)
    } else if text_is(value, "cleanup_pending") {
        Some(NodeModelJournalState::CleanupPending)
    } else if text_is(value, "succeeded") {
        Some(NodeModelJournalState::Succeeded)
    } else if text_is(value, "rolled_back") {
        Some(NodeModelJournalState::RolledBack)
    } else if text_is(value, "failed") {
        Some(NodeModelJournalState::Failed)
    } else {
        None
    }
}

/// Reading the name of one journal state gives it back.
pub proof fn law_journal_state_name(value: NodeModelJournalState)
    ensures
        journal_state_of(value.name()) == Some(value),
{
    reveal_strlit("prepared");
    assert("prepared"@.len() == 8);
    reveal_strlit("executing");
    assert("executing"@.len() == 9);
    reveal_strlit("compensating");
    assert("compensating"@.len() == 12);
    reveal_strlit("cleanup_pending");
    assert("cleanup_pending"@.len() == 15);
    reveal_strlit("succeeded");
    assert("succeeded"@.len() == 9);
    reveal_strlit("rolled_back");
    assert("rolled_back"@.len() == 11);
    reveal_strlit("failed");
    assert("failed"@.len() == 6);
    assert("succeeded"@[0] != "executing"@[0]);
}

// ---------------------------------------------------------------------------
// Stored records
// ---------------------------------------------------------------------------

/// Stores one normalized install group inside the private journal schema.
#[derive(Debug)]
pub struct InstallGroupDatabaseRecord {
    pub node_ids: Vec<String>,
    pub explicit_candidate_id: Option<String>,
}

/// What one [`InstallGroupDatabaseRecord`] holds.
pub struct InstallGroupDatabaseRecordView {
    pub node_ids: Seq<Seq<char>>,
    pub explicit_candidate_id: Option<Seq<char>>,
}

impl View for InstallGroupDatabaseRecord {
    type V = InstallGroupDatabaseRecordView;

    open spec fn view(&self) -> InstallGroupDatabaseRecordView {
        InstallGroupDatabaseRecordView {
            node_ids: views(self.node_ids@),
            explicit_candidate_id: viewed(self.explicit_candidate_id),
        }
    }
}

impl Valued for InstallGroupDatabaseRecord {
    fn copy(&self) -> (copy: Self) {
        InstallGroupDatabaseRecord {
            node_ids: copy_all(&self.node_ids),
            explicit_candidate_id: copy_optional(&self.explicit_candidate_id),
        }
    }

    fn same(&self, other: &Self) -> (same: bool) {
        same_all(&self.node_ids, &other.node_ids)
            && same_optional(&self.explicit_candidate_id, &other.explicit_candidate_id)
    }
}

/// Stores one exact runtime disposition inside the private journal schema.
#[derive(Debug)]
pub struct RuntimeReceiptDatabaseRecord {
    pub group_index: usize,
    pub node_id: String,
    pub candidate_id: String,
    pub installation_id: Option<String>,
    pub disposition: String,
}

/// What one [`RuntimeReceiptDatabaseRecord`] holds.
pub struct RuntimeReceiptDatabaseRecordView {
    pub group_index: usize,
    pub node_id: Seq<char>,
    pub candidate_id: Seq<char>,
    pub installation_id: Option<Seq<char>>,
    pub disposition: Seq<char>,
}

impl View for RuntimeReceiptDatabaseRecord {
    type V = RuntimeReceiptDatabaseRecordView;

    open spec fn view(&self) -> RuntimeReceiptDatabaseRecordView {
        RuntimeReceiptDatabaseRecordView {
            group_index: self.group_index,
            node_id: self.node_id@,
            candidate_id: self.candidate_id@,
            installation_id: viewed(self.installation_id),
            disposition: self.disposition@,
        }
    }
}

impl Valued for RuntimeReceiptDatabaseRecord {
    fn copy(&self) -> (copy: Self) {
        RuntimeReceiptDatabaseRecord {
            group_index: self.group_index,
            node_id: self.node_id.copy(),
            candidate_id: self.candidate_id.copy(),
            installation_id: copy_optional(&self.installation_id),
            disposition: self.disposition.copy(),
        }
    }

    fn same(&self, other: &Self) -> (same: bool) {
        self.group_index == other.group_index
            && self.node_id.same(&other.node_id)
            && self.candidate_id.same(&other.candidate_id)
            && same_optional(&self.installation_id, &other.installation_id)
            && self.disposition.same(&other.disposition)
    }
}

/// Stores one exact pre-command placement-group state.
#[derive(Debug)]
pub struct InitialGroupStateDatabaseRecord {
    pub placement_group_id: String,
    pub state: String,
}

/// What one [`InitialGroupStateDatabaseRecord`] holds.
pub struct InitialGroupStateDatabaseRecordView {
    pub placement_group_id: Seq<char>,
    pub state: Seq<char>,
}

impl View for InitialGroupStateDatabaseRecord {
    type V = InitialGroupStateDatabaseRecordView;

    open spec fn view(&self) -> InitialGroupStateDatabaseRecordView {
        InitialGroupStateDatabaseRecordView {
            placement_group_id: self.placement_group_id@,
            state: self.state@,
        }
    }
}

impl Valued for InitialGroupStateDatabaseRecord {
    fn copy(&self) -> (copy: Self) {
        InitialGroupStateDatabaseRecord {
            placement_group_id: self.placement_group_id.copy(),
            state: self.state.copy(),
        }
    }

    fn same(&self, other: &Self) -> (same: bool) {
        self.placement_group_id.same(&other.placement_group_id)
            && self.state.same(&other.state)
    }
}

/// Stores one exact node and retained runtime installation assignment.
#[derive(Debug)]
pub struct RetainedNodeDatabaseRecord {
    pub node_id: String,
    pub installation_id: String,
}

/// What one [`RetainedNodeDatabaseRecord`] holds.
pub struct RetainedNodeDatabaseRecordView {
    pub node_id: Seq<char>,
    pub installation_id: Seq<char>,
}

impl View for RetainedNodeDatabaseRecord {
    type V = RetainedNodeDatabaseRecordView;

    open spec fn view(&self) -> RetainedNodeDatabaseRecordView {
        RetainedNodeDatabaseRecordView {
            node_id: self.node_id@,
            installation_id: self.installation_id@,
        }
    }
}

impl Valued for RetainedNodeDatabaseRecord {
    fn copy(&self) -> (copy: Self) {
        RetainedNodeDatabaseRecord {
            node_id: self.node_id.copy(),
            installation_id: self.installation_id.copy(),
        }
    }

    fn same(&self, other: &Self) -> (same: bool) {
        self.node_id.same(&other.node_id)
            && self.installation_id.same(&other.installation_id)
    }
}

/// Stores one exact removed group and its deterministic failure-restoration identity.
#[derive(Debug)]
pub struct RetainedGroupDatabaseRecord {
    pub source_group_id: String,
    pub restoration_group_id: String,
    pub initial_state: String,
    pub nodes: Vec<RetainedNodeDatabaseRecord>,
}

/// What one [`RetainedGroupDatabaseRecord`] holds.
pub struct RetainedGroupDatabaseRecordView {
    pub source_group_id: Seq<char>,
    pub restoration_group_id: Seq<char>,
    pub initial_state: Seq<char>,
    pub nodes: Seq<RetainedNodeDatabaseRecordView>,
}

impl View for RetainedGroupDatabaseRecord {
    type V = RetainedGroupDatabaseRecordView;

    open spec fn view(&self) -> RetainedGroupDatabaseRecordView {
        RetainedGroupDatabaseRecordView {
            source_group_id: self.source_group_id@,
            restoration_group_id: self.restoration_group_id@,
            initial_state: self.initial_state@,
            nodes: views(self.nodes@),
        }
    }
}

impl Valued for RetainedGroupDatabaseRecord {
    fn copy(&self) -> (copy: Self) {
        RetainedGroupDatabaseRecord {
            source_group_id: self.source_group_id.copy(),
            restoration_group_id: self.restoration_group_id.copy(),
            initial_state: self.initial_state.copy(),
            nodes: copy_all(&self.nodes),
        }
    }

    fn same(&self, other: &Self) -> (same: bool) {
        self.source_group_id.same(&other.source_group_id)
            && self.restoration_group_id.same(&other.restoration_group_id)
            && self.initial_state.same(&other.initial_state)
            && same_all(&self.nodes, &other.nodes)
    }
}

/// Stores one closed restart-safe model lifecycle journal.
#[derive(Debug)]
pub struct NodeModelJournalDatabaseRecord {
    pub operation_id: String,
    pub idempotency_key: String,
    pub action: String,
    pub service_id: String,
    pub logical_model: String,
    pub install_groups: Vec<InstallGroupDatabaseRecord>,
    pub rollback_target_id: Option<String>,
    pub retained_groups: Vec<RetainedGroupDatabaseRecord>,
    pub runtime_receipts: Vec<RuntimeReceiptDatabaseRecord>,
    pub planned_group_ids: Vec<String>,
    pub placement_group_ids: Vec<String>,
    pub initial_group_states: Vec<InitialGroupStateDatabaseRecord>,
    pub removal_node_ids: Vec<String>,
    pub removal_runtime_retention: String,
    pub state: String,
    pub failure_code: Option<String>,
    pub created_at_unix_milliseconds: u64,
    pub updated_at_unix_milliseconds: u64,
}

/// What one [`NodeModelJournalDatabaseRecord`] holds.
pub struct NodeModelJournalDatabaseRecordView {
    pub operation_id: Seq<char>,
    pub idempotency_key: Seq<char>,
    pub action: Seq<char>,
    pub service_id: Seq<char>,
    pub logical_model: Seq<char>,
    pub install_groups: Seq<InstallGroupDatabaseRecordView>,
    pub rollback_target_id: Option<Seq<char>>,
    pub retained_groups: Seq<RetainedGroupDatabaseRecordView>,
    pub runtime_receipts: Seq<RuntimeReceiptDatabaseRecordView>,
    pub planned_group_ids: Seq<Seq<char>>,
    pub placement_group_ids: Seq<Seq<char>>,
    pub initial_group_states: Seq<InitialGroupStateDatabaseRecordView>,
    pub removal_node_ids: Seq<Seq<char>>,
    pub removal_runtime_retention: Seq<char>,
    pub state: Seq<char>,
    pub failure_code: Option<Seq<char>>,
    pub created_at_unix_milliseconds: u64,
    pub updated_at_unix_milliseconds: u64,
}

impl View for NodeModelJournalDatabaseRecord {
    type V = NodeModelJournalDatabaseRecordView;

    open spec fn view(&self) -> NodeModelJournalDatabaseRecordView {
        NodeModelJournalDatabaseRecordView {
            operation_id: self.operation_id@,
            idempotency_key: self.idempotency_key@,
            action: self.action@,
            service_id: self.service_id@,
            logical_model: self.logical_model@,
            install_groups: views(self.install_groups@),
            rollback_target_id: viewed(self.rollback_target_id),
            retained_groups: views(self.retained_groups@),
            runtime_receipts: views(self.runtime_receipts@),
            planned_group_ids: views(self.planned_group_ids@),
            placement_group_ids: views(self.placement_group_ids@),
            initial_group_states: views(self.initial_group_states@),
            removal_node_ids: views(self.removal_node_ids@),
            removal_runtime_retention: self.removal_runtime_retention@,
            state: self.state@,
            failure_code: viewed(self.failure_code),
            created_at_unix_milliseconds: self.created_at_unix_milliseconds,
            updated_at_unix_milliseconds: self.updated_at_unix_milliseconds,
        }
    }
}

impl Valued for NodeModelJournalDatabaseRecord {
    fn copy(&self) -> (copy: Self) {
        NodeModelJournalDatabaseRecord {
            operation_id: self.operation_id.copy(),
            idempotency_key: self.idempotency_key.copy(),
            action: self.action.copy(),
            service_id: self.service_id.copy(),
            logical_model: self.logical_model.copy(),
            install_groups: copy_all(&self.install_groups),
            rollback_target_id: copy_optional(&self.rollback_target_id),
            retained_groups: copy_all(&self.retained_groups),
            runtime_receipts: copy_all(&self.runtime_receipts),
            planned_group_ids: copy_all(&self.planned_group_ids),
            placement_group_ids: copy_all(&self.placement_group_ids),
            initial_group_states: copy_all(&self.initial_group_states),
            removal_node_ids: copy_all(&self.removal_node_ids),
            removal_runtime_retention: self.removal_runtime_retention.copy(),
            state: self.state.copy(),
            failure_code: copy_optional(&self.failure_code),
            created_at_unix_milliseconds: self.created_at_unix_milliseconds,
            updated_at_unix_milliseconds: self.updated_at_unix_milliseconds,
        }
    }

    fn same(&self, other: &Self) -> (same: bool) {
        self.operation_id.same(&other.operation_id)
            && self.idempotency_key.same(&other.idempotency_key)
            && self.action.same(&other.action)
            && self.service_id.same(&other.service_id)
            && self.logical_model.same(&other.logical_model)
            && same_all(&self.install_groups, &other.install_groups)
            && same_optional(&self.rollback_target_id, &other.rollback_target_id)
            && same_all(&self.retained_groups, &other.retained_groups)
            && same_all(&self.runtime_receipts, &other.runtime_receipts)
            && same_all(&self.planned_group_ids, &other.planned_group_ids)
            && same_all(&self.placement_group_ids, &other.placement_group_ids)
            && same_all(&self.initial_group_states, &other.initial_group_states)
            && same_all(&self.removal_node_ids, &other.removal_node_ids)
            && self.removal_runtime_retention.same(&other.removal_runtime_retention)
            && self.state.same(&other.state)
            && same_optional(&self.failure_code, &other.failure_code)
            && self.created_at_unix_milliseconds == other.created_at_unix_milliseconds
            && self.updated_at_unix_milliseconds == other.updated_at_unix_milliseconds
    }
}

/// The stored form of one install group.
pub open spec fn install_group_record(
    group: NodeModelInstallGroupView,
) -> InstallGroupDatabaseRecordView {
    InstallGroupDatabaseRecordView {
        node_ids: id_texts(group.node_ids),
        explicit_candidate_id: group.explicit_candidate_id,
    }
}

/// The text of one optional identity.
pub open spec fn optional_text(id: Option<RuntimeInstallationId>) -> Option<Seq<char>> {
    match id {
        Some(id) => Some(id.text()),
        None => None,
    }
}

/// The stored form of one runtime receipt.
pub open spec fn receipt_record(
    receipt: NodeModelRuntimeReceiptView,
) -> RuntimeReceiptDatabaseRecordView {
    RuntimeReceiptDatabaseRecordView {
        group_index: receipt.group_index,
        node_id: receipt.node_id.text(),
        candidate_id: receipt.candidate_id,
        installation_id: optional_text(receipt.installation_id),
        disposition: receipt.disposition.name(),
    }
}

/// The stored form of one initial group state.
pub open spec fn initial_state_record(
    entry: InitialGroupState,
) -> InitialGroupStateDatabaseRecordView {
    InitialGroupStateDatabaseRecordView {
        placement_group_id: entry.placement_group_id.text(),
        state: group_state_name(entry.state),
    }
}

/// The stored form of one retained assignment.
pub open spec fn retained_node_record(
    node: NodeModelRetainedNode,
) -> RetainedNodeDatabaseRecordView {
    RetainedNodeDatabaseRecordView {
        node_id: node.node_id.text(),
        installation_id: node.installation_id.text(),
    }
}

/// The stored form of one retained group.
pub open spec fn retained_group_record(
    group: NodeModelRetainedGroupView,
) -> RetainedGroupDatabaseRecordView {
    RetainedGroupDatabaseRecordView {
        source_group_id: group.source_group_id.text(),
        restoration_group_id: group.restoration_group_id.text(),
        initial_state: group_state_name(group.initial_state),
        nodes: group.nodes.map_values(|node: NodeModelRetainedNode| retained_node_record(node)),
    }
}

/// The stored form of one journal.
pub open spec fn record_of(journal: NodeModelJournalView) -> NodeModelJournalDatabaseRecordView {
    NodeModelJournalDatabaseRecordView {
        operation_id: journal.operation_id.text(),
        idempotency_key: journal.idempotency_key,
        action: journal.action.name(),
        service_id: journal.service_id.text(),
        logical_model: journal.logical_model,
        install_groups: journal.install_groups.map_values(
            |group: NodeModelInstallGroupView| install_group_record(group),
        ),
        rollback_target_id: journal.rollback_target_id,
        retained_groups: journal.retained_groups.map_values(
            |group: NodeModelRetainedGroupView| retained_group_record(group),
        ),
        runtime_receipts: journal.runtime_receipts.map_values(
            |receipt: NodeModelRuntimeReceiptView| receipt_record(receipt),
        ),
        planned_group_ids: id_texts(journal.planned_group_ids),
        placement_group_ids: id_texts(journal.placement_group_ids),
        initial_group_states: journal.initial_group_states.map_values(
            |entry: InitialGroupState| initial_state_record(entry),
        ),
        removal_node_ids: id_texts(journal.removal_node_ids),
        removal_runtime_retention: journal.removal_runtime_retention.name(),
        state: journal.state.name(),
        failure_code: journal.failure_code,
        created_at_unix_milliseconds: journal.created_at.value,
        updated_at_unix_milliseconds: journal.updated_at.value,
    }
}

/// Returns the text of one optional name.
fn optional_name_text<K: crate::identity::Kind>(
    name: &Option<crate::identity::Name<K>>,
) -> (text: Option<String>)
    ensures
        viewed(text) == viewed(*name),
{
    match name {
        Some(name) => Some(name.as_str().to_owned()),
        None => None,
    }
}

/// Projects install groups into the stored schema.
fn install_group_records(
    items: &Vec<NodeModelInstallGroup>,
) -> (records: Vec<InstallGroupDatabaseRecord>)
    ensures
        views(records@) == views(items@).map_values(
            |item: NodeModelInstallGroupView| install_group_record(item),
        ),
{
    let mut records: Vec<InstallGroupDatabaseRecord> = Vec::new();
    let mut i: usize = 0;
    while i < items.len()
        invariant
            i <= items@.len(),
            records@.len() == i,
            forall|k: int| 0 <= k < i ==> (#[trigger] records@[k])@ == install_group_record(
                items@[k]@,
            ),
        decreases items@.len() - i,
    {
        let item = &items[i];
        records.push(InstallGroupDatabaseRecord {
            node_ids: texts_of_ids(&item.node_ids),
            explicit_candidate_id: optional_name_text(&item.explicit_candidate_id),
        });
        assert(records@[i as int]@ =~= install_group_record(items@[i as int]@));
        i += 1;
    }
    assert(views(records@) =~= views(items@).map_values(|item: NodeModelInstallGroupView| install_group_record(item)));
    records
}

/// Projects runtime receipts into the stored schema.
fn receipt_records(
    items: &Vec<NodeModelRuntimeReceipt>,
) -> (records: Vec<RuntimeReceiptDatabaseRecord>)
    ensures
        views(records@) == views(items@).map_values(
            |item: NodeModelRuntimeReceiptView| receipt_record(item),
        ),
{
    let mut records: Vec<RuntimeReceiptDatabaseRecord> = Vec::new();
    let mut i: usize = 0;
    while i < items.len()
        invariant
            i <= items@.len(),
            records@.len() == i,
            forall|k: int| 0 <= k < i ==> (#[trigger] records@[k])@ == receipt_record(items@[k]@),
        decreases items@.len() - i,
    {
        let item = &items[i];
        records.push(RuntimeReceiptDatabaseRecord {
            group_index: item.group_index,
            node_id: item.node_id.to_text(),
            candidate_id: item.candidate_id.as_str().to_owned(),
            installation_id: match item.installation_id {
                Some(id) => Some(id.to_text()),
                None => None,
            },
            disposition: item.disposition.as_str().to_owned(),
        });
        assert(records@[i as int]@ =~= receipt_record(items@[i as int]@));
        i += 1;
    }
    assert(views(records@) =~= views(items@).map_values(|item: NodeModelRuntimeReceiptView| receipt_record(item)));
    records
}

/// Projects initial group states into the stored schema.
fn initial_state_records(
    items: &Vec<InitialGroupState>,
) -> (records: Vec<InitialGroupStateDatabaseRecord>)
    ensures
        views(records@) == views(items@).map_values(
            |item: InitialGroupState| initial_state_record(item),
        ),
{
    let mut records: Vec<InitialGroupStateDatabaseRecord> = Vec::new();
    let mut i: usize = 0;
    while i < items.len()
        invariant
            i <= items@.len(),
            records@.len() == i,
            forall|k: int| 0 <= k < i ==> (#[trigger] records@[k])@ == initial_state_record(
                items@[k]@,
            ),
        decreases items@.len() - i,
    {
        let item = &items[i];
        records.push(InitialGroupStateDatabaseRecord {
            placement_group_id: item.placement_group_id.to_text(),
            state: placement_group_state_name(item.state).to_owned(),
        });
        assert(records@[i as int]@ =~= initial_state_record(items@[i as int]@));
        i += 1;
    }
    assert(views(records@) =~= views(items@).map_values(|item: InitialGroupState| initial_state_record(item)));
    records
}

/// Projects retained assignments into the stored schema.
fn retained_node_records(
    items: &Vec<NodeModelRetainedNode>,
) -> (records: Vec<RetainedNodeDatabaseRecord>)
    ensures
        views(records@) == views(items@).map_values(
            |item: NodeModelRetainedNode| retained_node_record(item),
        ),
{
    let mut records: Vec<RetainedNodeDatabaseRecord> = Vec::new();
    let mut i: usize = 0;
    while i < items.len()
        invariant
            i <= items@.len(),
            records@.len() == i,
            forall|k: int| 0 <= k < i ==> (#[trigger] records@[k])@ == retained_node_record(
                items@[k]@,
            ),
        decreases items@.len() - i,
    {
        let item = &items[i];
        records.push(RetainedNodeDatabaseRecord {
            node_id: item.node_id.to_text(),
            installation_id: item.installation_id.to_text(),
        });
        assert(records@[i as int]@ =~= retained_node_record(items@[i as int]@));
        i += 1;
    }
    assert(views(records@) =~= views(items@).map_values(|item: NodeModelRetainedNode| retained_node_record(item)));
    records
}

/// Projects retained groups into the stored schema.
fn retained_group_records(
    items: &Vec<NodeModelRetainedGroup>,
) -> (records: Vec<RetainedGroupDatabaseRecord>)
    ensures
        views(records@) == views(items@).map_values(
            |item: NodeModelRetainedGroupView| retained_group_record(item),
        ),
{
    let mut records: Vec<RetainedGroupDatabaseRecord> = Vec::new();
    let mut i: usize = 0;
    while i < items.len()
        invariant
            i <= items@.len(),
            records@.len() == i,
            forall|k: int| 0 <= k < i ==> (#[trigger] records@[k])@ == retained_group_record(
                items@[k]@,
            ),
        decreases items@.len() - i,
    {
        let item = &items[i];
        records.push(RetainedGroupDatabaseRecord {
            source_group_id: item.source_group_id.to_text(),
            restoration_group_id: item.restoration_group_id.to_text(),
            initial_state: placement_group_state_name(item.initial_state).to_owned(),
            nodes: retained_node_records(&item.nodes),
        });
        assert(records@[i as int]@ =~= retained_group_record(items@[i as int]@));
        i += 1;
    }
    assert(views(records@) =~= views(items@).map_values(|item: NodeModelRetainedGroupView| retained_group_record(item)));
    records
}

/// Projects one typed journal into its closed private database schema.
pub fn journal_record(journal: &NodeModelJournal) -> (record: NodeModelJournalDatabaseRecord)
    ensures
        record@ == record_of(journal@),
{
    NodeModelJournalDatabaseRecord {
        operation_id: journal.operation_id.to_text(),
        idempotency_key: journal.idempotency_key.as_str().to_owned(),
        action: journal.action.as_str().to_owned(),
        service_id: journal.service_id.to_text(),
        logical_model: journal.logical_model.as_str().to_owned(),
        install_groups: install_group_records(&journal.install_groups),
        rollback_target_id: optional_name_text(&journal.rollback_target_id),
        retained_groups: retained_group_records(&journal.retained_groups),
        runtime_receipts: receipt_records(&journal.runtime_receipts),
        planned_group_ids: texts_of_ids(&journal.planned_group_ids),
        placement_group_ids: texts_of_ids(&journal.placement_group_ids),
        initial_group_states: initial_state_records(&journal.initial_group_states),
        removal_node_ids: texts_of_ids(&journal.removal_node_ids),
        removal_runtime_retention: journal.removal_runtime_retention.as_str().to_owned(),
        state: journal.state.as_str().to_owned(),
        failure_code: optional_name_text(&journal.failure_code),
        created_at_unix_milliseconds: journal.created_at.value,
        updated_at_unix_milliseconds: journal.updated_at.value,
    }
}

// ---------------------------------------------------------------------------
// Reading stored records
// ---------------------------------------------------------------------------

/// An optional name is absent or not empty.
pub open spec fn optional_named(text: Option<Seq<char>>) -> bool {
    text matches Some(text) ==> text.len() > 0
}

fn optional_name<K: crate::identity::Kind>(text: &Option<String>) -> (name: Option<
    Option<crate::identity::Name<K>>,
>)
    ensures
        name is Some <==> optional_named(viewed(*text)),
        name matches Some(name) ==> viewed(name) == viewed(*text),
{
    match text {
        Some(text) => match crate::identity::Name::<K>::parse(text.as_str()) {
            Ok(name) => Some(Some(name)),
            Err(_) => None,
        },
        None => Some(None),
    }
}

fn required_name<K: crate::identity::Kind>(
    text: &String,
) -> (name: Option<crate::identity::Name<K>>)
    ensures
        name is Some <==> text@.len() > 0,
        name matches Some(name) ==> name@ == text@,
{
    match crate::identity::Name::<K>::parse(text.as_str()) {
        Ok(name) => Some(name),
        Err(_) => None,
    }
}

fn required_id<K: crate::identity::Kind>(text: &String) -> (id: Option<Id<K>>)
    ensures
        id is Some <==> lower_hex(text@, 32),
        id matches Some(id) ==> id == id_of::<K>(text@),
{
    match Id::<K>::parse(text.as_str()) {
        Ok(id) => Some(id),
        Err(_) => None,
    }
}

/// One stored install group that can be read.
pub open spec fn install_group_readable(record: InstallGroupDatabaseRecordView) -> bool {
    &&& all_identities(record.node_ids)
    &&& optional_named(record.explicit_candidate_id)
    &&& bounded_nodes(ids_of(record.node_ids))
}

/// The install group that one stored form stands for.
pub open spec fn install_group_of(
    record: InstallGroupDatabaseRecordView,
) -> NodeModelInstallGroupView {
    NodeModelInstallGroupView {
        node_ids: ids_of(record.node_ids),
        explicit_candidate_id: record.explicit_candidate_id,
    }
}

fn read_install_group(record: &InstallGroupDatabaseRecord) -> (group: Option<NodeModelInstallGroup>)
    ensures
        group is Some <==> install_group_readable(record@),
        group matches Some(g) ==> g@ == install_group_of(record@),
{
    let node_ids = match parse_ids(&record.node_ids) {
        Some(node_ids) => node_ids,
        None => {
            return None;
        },
    };
    let explicit_candidate_id = match optional_name(&record.explicit_candidate_id) {
        Some(name) => name,
        None => {
            return None;
        },
    };
    match NodeModelInstallGroup::new(node_ids, explicit_candidate_id) {
        Ok(group) => Some(group),
        Err(_) => None,
    }
}

/// One stored receipt that can be read.
pub open spec fn receipt_readable(record: RuntimeReceiptDatabaseRecordView) -> bool {
    &&& disposition_of(record.disposition) is Some
    &&& record.installation_id matches Some(text) ==> lower_hex(text, 32)
    &&& (disposition_of(record.disposition) == Some(NodeModelRuntimeDisposition::InstallPending))
        != (record.installation_id is Some)
    &&& lower_hex(record.node_id, 32)
    &&& record.candidate_id.len() > 0
}

/// The receipt that one stored form stands for.
pub open spec fn receipt_of(
    record: RuntimeReceiptDatabaseRecordView,
) -> NodeModelRuntimeReceiptView {
    NodeModelRuntimeReceiptView {
        group_index: record.group_index,
        node_id: id_of(record.node_id),
        candidate_id: record.candidate_id,
        installation_id: match record.installation_id {
            Some(text) => Some(id_of(text)),
            None => None,
        },
        disposition: disposition_of(record.disposition)->0,
    }
}

fn read_receipt(record: &RuntimeReceiptDatabaseRecord) -> (receipt: Option<NodeModelRuntimeReceipt>)
    ensures
        receipt is Some <==> receipt_readable(record@),
        receipt matches Some(r) ==> r@ == receipt_of(record@),
{
    let disposition = match runtime_disposition(record.disposition.as_str()) {
        Some(disposition) => disposition,
        None => {
            return None;
        },
    };
    let installation_id = match &record.installation_id {
        Some(text) => match required_id(text) {
            Some(id) => Some(id),
            None => {
                return None;
            },
        },
        None => None,
    };
    if (disposition == NodeModelRuntimeDisposition::InstallPending) == installation_id.is_some() {
        return None;
    }
    let node_id = match required_id(&record.node_id) {
        Some(id) => id,
        None => {
            return None;
        },
    };
    let candidate_id = match required_name(&record.candidate_id) {
        Some(name) => name,
        None => {
            return None;
        },
    };
    Some(
        NodeModelRuntimeReceipt {
            group_index: record.group_index,
            node_id,
            candidate_id,
            installation_id,
            disposition,
        },
    )
}

/// One stored initial state that can be read.
pub open spec fn initial_state_readable(record: InitialGroupStateDatabaseRecordView) -> bool {
    lower_hex(record.placement_group_id, 32) && group_state_of(record.state) is Some
}

/// The initial state that one stored form stands for.
pub open spec fn initial_state_of(
    record: InitialGroupStateDatabaseRecordView,
) -> InitialGroupState {
    InitialGroupState {
        placement_group_id: id_of(record.placement_group_id),
        state: group_state_of(record.state)->0,
    }
}

fn read_initial_state(
    record: &InitialGroupStateDatabaseRecord,
) -> (entry: Option<InitialGroupState>)
    ensures
        entry is Some <==> initial_state_readable(record@),
        entry matches Some(e) ==> e@ == initial_state_of(record@),
{
    match (
        required_id(&record.placement_group_id),
        placement_group_state(record.state.as_str()),
    ) {
        (Some(placement_group_id), Some(state)) => Some(
            InitialGroupState { placement_group_id, state },
        ),
        _ => None,
    }
}

/// One stored assignment that can be read.
pub open spec fn retained_node_readable(record: RetainedNodeDatabaseRecordView) -> bool {
    lower_hex(record.node_id, 32) && lower_hex(record.installation_id, 32)
}

/// The assignment that one stored form stands for.
pub open spec fn retained_node_of(record: RetainedNodeDatabaseRecordView) -> NodeModelRetainedNode {
    NodeModelRetainedNode {
        node_id: id_of(record.node_id),
        installation_id: id_of(record.installation_id),
    }
}

fn read_retained_node(record: &RetainedNodeDatabaseRecord) -> (node: Option<NodeModelRetainedNode>)
    ensures
        node is Some <==> retained_node_readable(record@),
        node matches Some(n) ==> n@ == retained_node_of(record@),
{
    match (required_id(&record.node_id), required_id(&record.installation_id)) {
        (Some(node_id), Some(installation_id)) => Some(
            NodeModelRetainedNode::new(node_id, installation_id),
        ),
        _ => None,
    }
}

/// One stored retained group that can be read.
pub open spec fn retained_group_readable(record: RetainedGroupDatabaseRecordView) -> bool {
    &&& lower_hex(record.source_group_id, 32)
    &&& lower_hex(record.restoration_group_id, 32)
    &&& group_state_of(record.initial_state) is Some
    &&& forall|i: int|
        0 <= i < record.nodes.len() ==> retained_node_readable(#[trigger] record.nodes[i])
    &&& {
        let group = retained_group_of(record);
        retained_group(
            group.source_group_id,
            group.restoration_group_id,
            group.initial_state,
            group.nodes,
        ) is Ok
    }
}

/// The retained group that one stored form stands for.
pub open spec fn retained_group_of(
    record: RetainedGroupDatabaseRecordView,
) -> NodeModelRetainedGroupView {
    NodeModelRetainedGroupView {
        source_group_id: id_of(record.source_group_id),
        restoration_group_id: id_of(record.restoration_group_id),
        initial_state: group_state_of(record.initial_state)->0,
        nodes: record.nodes.map_values(
            |record: RetainedNodeDatabaseRecordView| retained_node_of(record),
        ),
    }
}

/// Reads every stored assignment.
fn read_retained_nodes(
    items: &Vec<RetainedNodeDatabaseRecord>,
) -> (values: Option<Vec<NodeModelRetainedNode>>)
    ensures
        values is Some <==> forall|i: int|
            0 <= i < items@.len() ==> retained_node_readable(#[trigger] views(items@)[i]),
        values matches Some(v) ==> views(v@) == views(items@).map_values(
            |record: RetainedNodeDatabaseRecordView| retained_node_of(record),
        ),
{
    let mut values: Vec<NodeModelRetainedNode> = Vec::new();
    let mut i: usize = 0;
    while i < items.len()
        invariant
            i <= items@.len(),
            values@.len() == i,
            forall|k: int|
                0 <= k < i ==> retained_node_readable(#[trigger] views(items@)[k]) && values@[k]@ == retained_node_of(
                    views(items@)[k],
                ),
        decreases items@.len() - i,
    {
        match read_retained_node(&items[i]) {
            Some(value) => {
                values.push(value);
            },
            None => {
                assert(!retained_node_readable(views(items@)[i as int]));
                return None;
            },
        }
        i += 1;
    }
    proof {
        let read = views(items@).map_values(|record: RetainedNodeDatabaseRecordView| retained_node_of(record));
        assert forall|k: int| 0 <= k < read.len() implies views(values@)[k] == read[k] by {
            assert(retained_node_readable(views(items@)[k]));
        }
        assert(views(values@) =~= read);
    }
    Some(values)
}

fn read_retained_group(
    record: &RetainedGroupDatabaseRecord,
) -> (group: Option<NodeModelRetainedGroup>)
    ensures
        group is Some <==> retained_group_readable(record@),
        group matches Some(g) ==> g@ == retained_group_of(record@),
{
    let source_group_id = match required_id(&record.source_group_id) {
        Some(id) => id,
        None => {
            return None;
        },
    };
    let restoration_group_id = match required_id(&record.restoration_group_id) {
        Some(id) => id,
        None => {
            return None;
        },
    };
    let initial_state = match placement_group_state(record.initial_state.as_str()) {
        Some(state) => state,
        None => {
            return None;
        },
    };
    let nodes = match read_retained_nodes(&record.nodes) {
        Some(nodes) => nodes,
        None => {
            return None;
        },
    };
    match NodeModelRetainedGroup::new(source_group_id, restoration_group_id, initial_state, nodes) {
        Ok(group) => Some(group),
        Err(_) => None,
    }
}

/// Reads every stored install group.
fn read_install_groups(
    items: &Vec<InstallGroupDatabaseRecord>,
) -> (values: Option<Vec<NodeModelInstallGroup>>)
    ensures
        values is Some <==> forall|i: int|
            0 <= i < items@.len() ==> install_group_readable(#[trigger] views(items@)[i]),
        values matches Some(v) ==> views(v@) == views(items@).map_values(
            |record: InstallGroupDatabaseRecordView| install_group_of(record),
        ),
{
    let mut values: Vec<NodeModelInstallGroup> = Vec::new();
    let mut i: usize = 0;
    while i < items.len()
        invariant
            i <= items@.len(),
            values@.len() == i,
            forall|k: int|
                0 <= k < i ==> install_group_readable(#[trigger] views(items@)[k]) && values@[k]@ == install_group_of(
                    views(items@)[k],
                ),
        decreases items@.len() - i,
    {
        match read_install_group(&items[i]) {
            Some(value) => {
                values.push(value);
            },
            None => {
                assert(!install_group_readable(views(items@)[i as int]));
                return None;
            },
        }
        i += 1;
    }
    proof {
        let read = views(items@).map_values(|record: InstallGroupDatabaseRecordView| install_group_of(record));
        assert forall|k: int| 0 <= k < read.len() implies views(values@)[k] == read[k] by {
            assert(install_group_readable(views(items@)[k]));
        }
        assert(views(values@) =~= read);
    }
    Some(values)
}

/// Reads every stored receipt.
fn read_receipts(
    items: &Vec<RuntimeReceiptDatabaseRecord>,
) -> (values: Option<Vec<NodeModelRuntimeReceipt>>)
    ensures
        values is Some <==> forall|i: int|
            0 <= i < items@.len() ==> receipt_readable(#[trigger] views(items@)[i]),
        values matches Some(v) ==> views(v@) == views(items@).map_values(
            |record: RuntimeReceiptDatabaseRecordView| receipt_of(record),
        ),
{
    let mut values: Vec<NodeModelRuntimeReceipt> = Vec::new();
    let mut i: usize = 0;
    while i < items.len()
        invariant
            i <= items@.len(),
            values@.len() == i,
            forall|k: int|
                0 <= k < i ==> receipt_readable(#[trigger] views(items@)[k]) && values@[k]@ == receipt_of(
                    views(items@)[k],
                ),
        decreases items@.len() - i,
    {
        match read_receipt(&items[i]) {
            Some(value) => {
                values.push(value);
            },
            None => {
                assert(!receipt_readable(views(items@)[i as int]));
                return None;
            },
        }
        i += 1;
    }
    proof {
        let read = views(items@).map_values(|record: RuntimeReceiptDatabaseRecordView| receipt_of(record));
        assert forall|k: int| 0 <= k < read.len() implies views(values@)[k] == read[k] by {
            assert(receipt_readable(views(items@)[k]));
        }
        assert(views(values@) =~= read);
    }
    Some(values)
}

/// Reads every stored initial state.
fn read_initial_states(
    items: &Vec<InitialGroupStateDatabaseRecord>,
) -> (values: Option<Vec<InitialGroupState>>)
    ensures
        values is Some <==> forall|i: int|
            0 <= i < items@.len() ==> initial_state_readable(#[trigger] views(items@)[i]),
        values matches Some(v) ==> views(v@) == views(items@).map_values(
            |record: InitialGroupStateDatabaseRecordView| initial_state_of(record),
        ),
{
    let mut values: Vec<InitialGroupState> = Vec::new();
    let mut i: usize = 0;
    while i < items.len()
        invariant
            i <= items@.len(),
            values@.len() == i,
            forall|k: int|
                0 <= k < i ==> initial_state_readable(#[trigger] views(items@)[k]) && values@[k]@ == initial_state_of(
                    views(items@)[k],
                ),
        decreases items@.len() - i,
    {
        match read_initial_state(&items[i]) {
            Some(value) => {
                values.push(value);
            },
            None => {
                assert(!initial_state_readable(views(items@)[i as int]));
                return None;
            },
        }
        i += 1;
    }
    proof {
        let read = views(items@).map_values(|record: InitialGroupStateDatabaseRecordView| initial_state_of(record));
        assert forall|k: int| 0 <= k < read.len() implies views(values@)[k] == read[k] by {
            assert(initial_state_readable(views(items@)[k]));
        }
        assert(views(values@) =~= read);
    }
    Some(values)
}

/// Reads every stored retained group.
fn read_retained_groups(
    items: &Vec<RetainedGroupDatabaseRecord>,
) -> (values: Option<Vec<NodeModelRetainedGroup>>)
    ensures
        values is Some <==> forall|i: int|
            0 <= i < items@.len() ==> retained_group_readable(#[trigger] views(items@)[i]),
        values matches Some(v) ==> views(v@) == views(items@).map_values(
            |record: RetainedGroupDatabaseRecordView| retained_group_of(record),
        ),
{
    let mut values: Vec<NodeModelRetainedGroup> = Vec::new();
    let mut i: usize = 0;
    while i < items.len()
        invariant
            i <= items@.len(),
            values@.len() == i,
            forall|k: int|
                0 <= k < i ==> retained_group_readable(#[trigger] views(items@)[k]) && values@[k]@ == retained_group_of(
                    views(items@)[k],
                ),
        decreases items@.len() - i,
    {
        match read_retained_group(&items[i]) {
            Some(value) => {
                values.push(value);
            },
            None => {
                assert(!retained_group_readable(views(items@)[i as int]));
                return None;
            },
        }
        i += 1;
    }
    proof {
        let read = views(items@).map_values(|record: RetainedGroupDatabaseRecordView| retained_group_of(record));
        assert forall|k: int| 0 <= k < read.len() implies views(values@)[k] == read[k] by {
            assert(retained_group_readable(views(items@)[k]));
        }
        assert(views(values@) =~= read);
    }
    Some(values)
}

/// One stored journal whose fields can be read one by one.
pub open spec fn record_readable(record: NodeModelJournalDatabaseRecordView) -> bool {
    &&& lower_hex(record.operation_id, 32)
    &&& record.idempotency_key.len() > 0
    &&& action_of(record.action) is Some
    &&& lower_hex(record.service_id, 32)
    &&& record.logical_model.len() > 0
    &&& forall|i: int|
        0 <= i < record.install_groups.len() ==> install_group_readable(
            #[trigger] record.install_groups[i],
        )
    &&& optional_named(record.rollback_target_id)
    &&& forall|i: int|
        0 <= i < record.retained_groups.len() ==> retained_group_readable(
            #[trigger] record.retained_groups[i],
        )
    &&& forall|i: int|
        0 <= i < record.runtime_receipts.len() ==> receipt_readable(
            #[trigger] record.runtime_receipts[i],
        )
    &&& all_identities(record.planned_group_ids)
    &&& all_identities(record.placement_group_ids)
    &&& forall|i: int|
        0 <= i < record.initial_group_states.len() ==> initial_state_readable(
            #[trigger] record.initial_group_states[i],
        )
    &&& all_identities(record.removal_node_ids)
    &&& retention_of(record.removal_runtime_retention) is Some
    &&& journal_state_of(record.state) is Some
    &&& optional_named(record.failure_code)
}

/// The journal that one stored form stands for.
pub open spec fn journal_of(record: NodeModelJournalDatabaseRecordView) -> NodeModelJournalView {
    NodeModelJournalView {
        operation_id: id_of(record.operation_id),
        idempotency_key: record.idempotency_key,
        action: action_of(record.action)->0,
        service_id: id_of(record.service_id),
        logical_model: record.logical_model,
        install_groups: record.install_groups.map_values(
            |record: InstallGroupDatabaseRecordView| install_group_of(record),
        ),
        rollback_target_id: record.rollback_target_id,
        retained_groups: record.retained_groups.map_values(
            |record: RetainedGroupDatabaseRecordView| retained_group_of(record),
        ),
        runtime_receipts: record.runtime_receipts.map_values(
            |record: RuntimeReceiptDatabaseRecordView| receipt_of(record),
        ),
        planned_group_ids: ids_of(record.planned_group_ids),
        placement_group_ids: ids_of(record.placement_group_ids),
        initial_group_states: record.initial_group_states.map_values(
            |record: InitialGroupStateDatabaseRecordView| initial_state_of(record),
        ),
        removal_node_ids: ids_of(record.removal_node_ids),
        removal_runtime_retention: retention_of(record.removal_runtime_retention)->0,
        state: journal_state_of(record.state)->0,
        failure_code: record.failure_code,
        created_at: UnixMilliseconds { value: record.created_at_unix_milliseconds },
        updated_at: UnixMilliseconds { value: record.updated_at_unix_milliseconds },
    }
}

/// What reading one stored journal gives: the journal when every field can be read and every
/// cross-field invariant holds, and corruption otherwise.
pub open spec fn journal_from(record: NodeModelJournalDatabaseRecordView) -> Result<
    NodeModelJournalView,
    NodeModelError,
> {
    if record_readable(record) && journal_valid(journal_of(record)) {
        Ok(journal_of(record))
    } else {
        Err(NodeModelError::JournalCorrupt)
    }
}

/// Reconstructs and validates one closed private database journal.
pub fn journal_from_record(record: NodeModelJournalDatabaseRecord) -> (result: Result<
    NodeModelJournal,
    NodeModelError,
>)
    ensures
        outcome(result) == journal_from(record@),
{
    let install_groups = match read_install_groups(&record.install_groups) {
        Some(groups) => groups,
        None => {
            return Err(NodeModelError::JournalCorrupt);
        },
    };
    let runtime_receipts = match read_receipts(&record.runtime_receipts) {
        Some(receipts) => receipts,
        None => {
            return Err(NodeModelError::JournalCorrupt);
        },
    };
    let placement_group_ids = match parse_ids(&record.placement_group_ids) {
        Some(ids) => ids,
        None => {
            return Err(NodeModelError::JournalCorrupt);
        },
    };
    let planned_group_ids = match parse_ids(&record.planned_group_ids) {
        Some(ids) => ids,
        None => {
            return Err(NodeModelError::JournalCorrupt);
        },
    };
    let initial_group_states = match read_initial_states(&record.initial_group_states) {
        Some(states) => states,
        None => {
            return Err(NodeModelError::JournalCorrupt);
        },
    };
    let retained_groups = match read_retained_groups(&record.retained_groups) {
        Some(groups) => groups,
        None => {
            return Err(NodeModelError::JournalCorrupt);
        },
    };
    let removal_node_ids = match parse_ids(&record.removal_node_ids) {
        Some(ids) => ids,
        None => {
            return Err(NodeModelError::JournalCorrupt);
        },
    };
    let (action, state, removal_runtime_retention) = match (
        action(record.action.as_str()),
        journal_state(record.state.as_str()),
        removal_runtime_retention(record.removal_runtime_retention.as_str()),
    ) {
        (Some(action), Some(state), Some(retention)) => (action, state, retention),
        _ => {
            return Err(NodeModelError::JournalCorrupt);
        },
    };
    let (operation_id, service_id) = match (
        required_id(&record.operation_id),
        required_id(&record.service_id),
    ) {
        (Some(operation_id), Some(service_id)) => (operation_id, service_id),
        _ => {
            return Err(NodeModelError::JournalCorrupt);
        },
    };
    let (idempotency_key, logical_model) = match (
        required_name(&record.idempotency_key),
        required_name(&record.logical_model),
    ) {
        (Some(idempotency_key), Some(logical_model)) => (idempotency_key, logical_model),
        _ => {
            return Err(NodeModelError::JournalCorrupt);
        },
    };
    let (rollback_target_id, failure_code) = match (
        optional_name(&record.rollback_target_id),
        optional_name(&record.failure_code),
    ) {
        (Some(rollback_target_id), Some(failure_code)) => (rollback_target_id, failure_code),
        _ => {
            return Err(NodeModelError::JournalCorrupt);
        },
    };
    let journal = NodeModelJournal {
        operation_id,
        idempotency_key,
        action,
        service_id,
        logical_model,
        install_groups,
        rollback_target_id,
        retained_groups,
        runtime_receipts,
        planned_group_ids,
        placement_group_ids,
        initial_group_states,
        removal_node_ids,
        removal_runtime_retention,
        state,
        failure_code,
        created_at: UnixMilliseconds::new(record.created_at_unix_milliseconds),
        updated_at: UnixMilliseconds::new(record.updated_at_unix_milliseconds),
    };
    validate_journal(&journal)?;
    Ok(journal)
}

// ---------------------------------------------------------------------------
// Invariants
// ---------------------------------------------------------------------------

/// Journal states in which a failure code is recorded.
pub open spec fn failure_recorded(state: NodeModelJournalState) -> bool {
    state == NodeModelJournalState::CleanupPending || state == NodeModelJournalState::Failed
}

/// Every list of the journal is bounded.
pub open spec fn journal_bounded(journal: NodeModelJournalView) -> bool {
    &&& journal.install_groups.len() <= MAX_INSTALL_GROUPS
    &&& journal.planned_group_ids.len() <= MAX_INSTALL_GROUPS
    &&& journal.placement_group_ids.len() <= MAX_INSTALL_GROUPS
    &&& journal.retained_groups.len() <= MAX_INSTALL_GROUPS
    &&& journal.removal_node_ids.len() <= MAX_NODES_PER_GROUP
}

/// A command that stages groups plans one derived identity for each install group and has
/// committed a prefix of them. Any other command owns no receipt and targets exactly the groups
/// whose initial state it recorded.
pub open spec fn journal_planned(journal: NodeModelJournalView) -> bool {
    if journal.action.stages() {
        &&& journal.planned_group_ids == planned_groups(
            journal.operation_id,
            journal.install_groups.len(),
        )
        &&& journal.placement_group_ids.len() <= journal.planned_group_ids.len()
        &&& journal.placement_group_ids == journal.planned_group_ids.take(
            journal.placement_group_ids.len() as int,
        )
    } else {
        &&& journal.runtime_receipts.len() == 0
        &&& journal.placement_group_ids == initial_ids(journal.initial_group_states)
    }
}

/// The groups of one list of initial states.
pub open spec fn initial_ids(states: Seq<InitialGroupState>) -> Seq<PlacementGroupId> {
    Seq::new(states.len(), |i: int| states[i].placement_group_id)
}

/// The source groups of one list of retained groups.
pub open spec fn source_ids(groups: Seq<NodeModelRetainedGroupView>) -> Seq<PlacementGroupId> {
    Seq::new(groups.len(), |i: int| groups[i].source_group_id)
}

/// The restoration groups of one list of retained groups.
pub open spec fn restoration_ids(groups: Seq<NodeModelRetainedGroupView>) -> Seq<PlacementGroupId> {
    Seq::new(groups.len(), |i: int| groups[i].restoration_group_id)
}

/// Fields that the action does not own are empty.
pub open spec fn journal_closed(journal: NodeModelJournalView) -> bool {
    let keeps_default_retention = journal.removal_runtime_retention
        == NodeModelRemovalRetention::RemoveUnreferencedRuntimes;
    match journal.action {
        NodeModelAction::Install => {
            &&& journal.rollback_target_id is None
            &&& journal.retained_groups.len() == 0
            &&& journal.initial_group_states.len() == 0
            &&& journal.removal_node_ids.len() == 0
            &&& keeps_default_retention
        },
        NodeModelAction::Update => {
            &&& journal.rollback_target_id is None
            &&& journal.retained_groups.len() > 0
            &&& journal.retained_groups.len() == journal.install_groups.len()
            &&& journal.initial_group_states.len() == journal.install_groups.len()
            &&& journal.removal_node_ids.len() == 0
            &&& keeps_default_retention
        },
        NodeModelAction::Rollback => {
            &&& journal.retained_groups.len() > 0
            &&& journal.retained_groups.len() == journal.install_groups.len()
            &&& journal.initial_group_states.len() == journal.install_groups.len()
            &&& journal.removal_node_ids.len() == 0
            &&& keeps_default_retention
        },
        NodeModelAction::Remove => {
            &&& journal.install_groups.len() == 0
            &&& journal.rollback_target_id is None
            &&& journal.retained_groups.len() == 0
            &&& journal.runtime_receipts.len() == 0
            &&& journal.planned_group_ids.len() == 0
        },
        _ => {
            &&& journal.install_groups.len() == 0
            &&& journal.rollback_target_id is None
            &&& journal.retained_groups.len() == 0
            &&& journal.runtime_receipts.len() == 0
            &&& journal.planned_group_ids.len() == 0
            &&& journal.removal_node_ids.len() == 0
            &&& keeps_default_retention
        },
    }
}

/// Position `index` of the retained groups is restored under its derived identity, agrees with
/// the recorded initial state, and covers the nodes of its replacement.
pub open spec fn retained_consistent(journal: NodeModelJournalView, index: int) -> bool {
    let group = journal.retained_groups[index];
    &&& group.restoration_group_id == planned_restoration_group(
        journal.operation_id,
        index as nat,
    )
    &&& group.source_group_id != group.restoration_group_id
    &&& index < journal.initial_group_states.len()
    &&& journal.initial_group_states[index].placement_group_id == group.source_group_id
    &&& journal.initial_group_states[index].state == group.initial_state
    &&& index < journal.install_groups.len()
    &&& same_members(
        retained_node_ids(group.nodes),
        journal.install_groups[index].node_ids,
    )
}

/// Two lists hold the same identities, whatever their order.
pub open spec fn same_members(left: Seq<NodeId>, right: Seq<NodeId>) -> bool {
    &&& forall|i: int| 0 <= i < left.len() ==> right.contains(#[trigger] left[i])
    &&& forall|i: int| 0 <= i < right.len() ==> left.contains(#[trigger] right[i])
}

/// A receipt belongs to a node of one of the command's install groups.
pub open spec fn receipt_owned(
    journal: NodeModelJournalView,
    receipt: NodeModelRuntimeReceiptView,
) -> bool {
    &&& receipt.group_index < journal.install_groups.len()
    &&& journal.install_groups[receipt.group_index as int].node_ids.contains(receipt.node_id)
}

/// Every cross-field invariant of one durable journal.
pub open spec fn journal_valid(journal: NodeModelJournalView) -> bool {
    &&& journal.created_at.value > 0
    &&& journal.created_at.value <= journal.updated_at.value
    &&& failure_recorded(journal.state) == (journal.failure_code is Some)
    &&& journal.action.stages() == (journal.install_groups.len() > 0)
    &&& journal.rollback_target_id is Some ==> journal.action == NodeModelAction::Rollback
    &&& journal_bounded(journal)
    &&& is_strictly_sorted(
        journal.runtime_receipts,
        |receipt: NodeModelRuntimeReceiptView| receipt_key(receipt),
    )
    &&& journal_planned(journal)
    &&& journal_closed(journal)
    &&& journal.placement_group_ids.no_duplicates()
    &&& journal.planned_group_ids.no_duplicates()
    &&& initial_ids(journal.initial_group_states).no_duplicates()
    &&& source_ids(journal.retained_groups).no_duplicates()
    &&& restoration_ids(journal.retained_groups).no_duplicates()
    &&& forall|i: int|
        0 <= i < journal.retained_groups.len() ==> #[trigger] retained_consistent(journal, i)
    &&& strictly_increasing(journal.removal_node_ids)
    &&& forall|i: int|
        0 <= i < journal.runtime_receipts.len() ==> receipt_owned(
            journal,
            #[trigger] journal.runtime_receipts[i],
        )
}

fn receipts_increase(receipts: &Vec<NodeModelRuntimeReceipt>) -> (increase: bool)
    ensures
        increase == is_strictly_sorted(
            views(receipts@),
            |receipt: NodeModelRuntimeReceiptView| receipt_key(receipt),
        ),
{
    let ghost all = views(receipts@);
    let ghost key = |receipt: NodeModelRuntimeReceiptView| receipt_key(receipt);
    let mut i: usize = 1;
    while i < receipts.len()
        invariant
            1 <= i,
            i <= receipts@.len() || receipts@.len() == 0,
            all == views(receipts@),
            key == (|receipt: NodeModelRuntimeReceiptView| receipt_key(receipt)),
            forall|k: int, m: int|
                #![trigger all[k], all[m]]
                0 <= k < m < i && m < all.len() ==> key_lt(key(all[k]), key(all[m])),
        decreases receipts@.len() - i,
    {
        let left = &receipts[i - 1];
        let right = &receipts[i];
        let increases = left.group_index < right.group_index || (left.group_index
            == right.group_index && left.node_id.value < right.node_id.value);
        assert(increases == key_lt(key(all[i - 1]), key(all[i as int])));
        if !increases {
            return false;
        }
        assert forall|k: int, m: int|
            #![trigger all[k], all[m]]
            0 <= k < m < i + 1 && m < all.len() implies key_lt(key(all[k]), key(all[m])) by {
            if m == i && k < i - 1 {
                assert(key_lt(key(all[k]), key(all[i - 1])));
            }
        }
        i += 1;
    }
    true
}

fn ids_of_initial(states: &Vec<InitialGroupState>) -> (ids: Vec<PlacementGroupId>)
    ensures
        ids@ == initial_ids(views(states@)),
{
    let mut ids: Vec<PlacementGroupId> = Vec::new();
    let mut i: usize = 0;
    while i < states.len()
        invariant
            i <= states@.len(),
            ids@.len() == i,
            forall|k: int| 0 <= k < i ==> ids@[k] == (#[trigger] states@[k]).placement_group_id,
        decreases states@.len() - i,
    {
        ids.push(states[i].placement_group_id);
        i += 1;
    }
    assert(ids@ =~= initial_ids(views(states@)));
    ids
}

fn ids_of_retained(groups: &Vec<NodeModelRetainedGroup>) -> (ids: (
    Vec<PlacementGroupId>,
    Vec<PlacementGroupId>,
))
    ensures
        ids.0@ == source_ids(views(groups@)),
        ids.1@ == restoration_ids(views(groups@)),
{
    let mut sources: Vec<PlacementGroupId> = Vec::new();
    let mut restorations: Vec<PlacementGroupId> = Vec::new();
    let mut i: usize = 0;
    while i < groups.len()
        invariant
            i <= groups@.len(),
            sources@.len() == i,
            restorations@.len() == i,
            forall|k: int|
                0 <= k < i ==> sources@[k] == (#[trigger] groups@[k]).source_group_id
                    && restorations@[k] == groups@[k].restoration_group_id,
        decreases groups@.len() - i,
    {
        sources.push(groups[i].source_group_id);
        restorations.push(groups[i].restoration_group_id);
        i += 1;
    }
    assert(sources@ =~= source_ids(views(groups@)));
    assert(restorations@ =~= restoration_ids(views(groups@)));
    (sources, restorations)
}

fn plan_matches(journal: &NodeModelJournal) -> (matches: bool)
    ensures
        matches == (journal@.planned_group_ids == planned_groups(
            journal@.operation_id,
            journal@.install_groups.len(),
        ) && journal@.placement_group_ids.len() <= journal@.planned_group_ids.len()
            && journal@.placement_group_ids == journal@.planned_group_ids.take(
            journal@.placement_group_ids.len() as int,
        )),
{
    let planned = &journal.planned_group_ids;
    let committed = &journal.placement_group_ids;
    let ghost expected = planned_groups(journal@.operation_id, journal@.install_groups.len());
    if planned.len() != journal.install_groups.len() || committed.len() > planned.len() {
        return false;
    }
    let mut i: usize = 0;
    while i < planned.len()
        invariant
            i <= planned@.len(),
            planned@ == journal@.planned_group_ids,
            planned@.len() == expected.len(),
            expected == planned_groups(journal@.operation_id, journal@.install_groups.len()),
            forall|k: int| 0 <= k < i ==> planned@[k] == expected[k],
        decreases planned@.len() - i,
    {
        if planned[i] != planned_placement_group_id(&journal.operation_id, i) {
            assert(planned@[i as int] != expected[i as int]);
            return false;
        }
        i += 1;
    }
    assert(planned@ =~= expected);
    let mut j: usize = 0;
    while j < committed.len()
        invariant
            j <= committed@.len() <= planned@.len(),
            planned@ == journal@.planned_group_ids,
            committed@ == journal@.placement_group_ids,
            forall|k: int| 0 <= k < j ==> committed@[k] == planned@[k],
        decreases committed@.len() - j,
    {
        if committed[j] != planned[j] {
            assert(committed@[j as int] != planned@.take(committed@.len() as int)[j as int]);
            return false;
        }
        j += 1;
    }
    assert(committed@ =~= planned@.take(committed@.len() as int));
    true
}

fn fields_are_closed(journal: &NodeModelJournal) -> (closed: bool)
    ensures
        closed == journal_closed(journal@),
{
    let keeps_default_retention = journal.removal_runtime_retention
        == NodeModelRemovalRetention::RemoveUnreferencedRuntimes;
    match journal.action {
        NodeModelAction::Install => {
            journal.rollback_target_id.is_none() && journal.retained_groups.len() == 0
                && journal.initial_group_states.len() == 0 && journal.removal_node_ids.len() == 0
                && keeps_default_retention
        },
        NodeModelAction::Update => {
            journal.rollback_target_id.is_none() && journal.retained_groups.len() > 0
                && journal.retained_groups.len() == journal.install_groups.len()
                && journal.initial_group_states.len() == journal.install_groups.len()
                && journal.removal_node_ids.len() == 0 && keeps_default_retention
        },
        NodeModelAction::Rollback => {
            journal.retained_groups.len() > 0 && journal.retained_groups.len()
                == journal.install_groups.len() && journal.initial_group_states.len()
                == journal.install_groups.len() && journal.removal_node_ids.len() == 0
                && keeps_default_retention
        },
        NodeModelAction::Remove => {
            journal.install_groups.len() == 0 && journal.rollback_target_id.is_none()
                && journal.retained_groups.len() == 0 && journal.runtime_receipts.len() == 0
                && journal.planned_group_ids.len() == 0
        },
        _ => {
            journal.install_groups.len() == 0 && journal.rollback_target_id.is_none()
                && journal.retained_groups.len() == 0 && journal.runtime_receipts.len() == 0
                && journal.planned_group_ids.len() == 0 && journal.removal_node_ids.len() == 0
                && keeps_default_retention
        },
    }
}

fn contains_all(items: &Vec<NodeId>, others: &Vec<NodeId>) -> (contained: bool)
    ensures
        contained == forall|i: int| 0 <= i < items@.len() ==> others@.contains(
            #[trigger] items@[i],
        ),
{
    let mut i: usize = 0;
    while i < items.len()
        invariant
            i <= items@.len(),
            forall|k: int| 0 <= k < i ==> others@.contains(#[trigger] items@[k]),
        decreases items@.len() - i,
    {
        if !contains_id(others, &items[i]) {
            assert(!others@.contains(items@[i as int]));
            return false;
        }
        i += 1;
    }
    true
}

fn retained_groups_match(journal: &NodeModelJournal) -> (matches: bool)
    ensures
        matches == forall|i: int|
            0 <= i < journal@.retained_groups.len() ==> #[trigger] retained_consistent(journal@, i),
{
    let ghost model = journal@;
    let mut i: usize = 0;
    while i < journal.retained_groups.len()
        invariant
            i <= journal.retained_groups@.len(),
            model == journal@,
            model.retained_groups.len() == journal.retained_groups@.len(),
            forall|k: int| 0 <= k < i ==> #[trigger] retained_consistent(model, k),
        decreases journal.retained_groups@.len() - i,
    {
        let group = &journal.retained_groups[i];
        assert(model.retained_groups[i as int] == group@);
        let nodes = nodes_of_retained(&group.nodes);
        let consistent = group.restoration_group_id == planned_restoration_group_id(
            &journal.operation_id,
            i,
        ) && group.source_group_id != group.restoration_group_id && i
            < journal.initial_group_states.len()
            && journal.initial_group_states[i].placement_group_id == group.source_group_id
            && journal.initial_group_states[i].state == group.initial_state && i
            < journal.install_groups.len() && contains_all(
            &nodes,
            &journal.install_groups[i].node_ids,
        ) && contains_all(&journal.install_groups[i].node_ids, &nodes);
        proof {
            if i < journal.initial_group_states@.len() {
                assert(model.initial_group_states[i as int] == journal.initial_group_states@[i as int]);
            }
            if i < journal.install_groups@.len() {
                assert(model.install_groups[i as int] == journal.install_groups@[i as int]@);
            }
            assert(consistent == retained_consistent(model, i as int));
        }
        if !consistent {
            return false;
        }
        i += 1;
    }
    true
}

fn receipts_are_owned(journal: &NodeModelJournal) -> (owned: bool)
    ensures
        owned == forall|i: int|
            0 <= i < journal@.runtime_receipts.len() ==> receipt_owned(
                journal@,
                #[trigger] journal@.runtime_receipts[i],
            ),
{
    let ghost model = journal@;
    let mut i: usize = 0;
    while i < journal.runtime_receipts.len()
        invariant
            i <= journal.runtime_receipts@.len(),
            model == journal@,
            model.runtime_receipts.len() == journal.runtime_receipts@.len(),
            forall|k: int|
                0 <= k < i ==> receipt_owned(model, #[trigger] model.runtime_receipts[k]),
        decreases journal.runtime_receipts@.len() - i,
    {
        let receipt = &journal.runtime_receipts[i];
        let owned = receipt.group_index < journal.install_groups.len() && contains_id(
            &journal.install_groups[receipt.group_index].node_ids,
            &receipt.node_id,
        );
        proof {
            assert(model.runtime_receipts[i as int] == receipt@);
            assert(owned == receipt_owned(model, model.runtime_receipts[i as int]));
        }
        if !owned {
            return false;
        }
        i += 1;
    }
    true
}

/// Validates all cross-field journal invariants after private persistence decode.
pub fn validate_journal(journal: &NodeModelJournal) -> (result: Result<(), NodeModelError>)
    ensures
        result == (if journal_valid(journal@) {
            Ok::<(), NodeModelError>(())
        } else {
            Err(NodeModelError::JournalCorrupt)
        }),
{
    let failure_required = matches!(
        journal.state,
        NodeModelJournalState::CleanupPending | NodeModelJournalState::Failed
    );
    if journal.created_at.value == 0 || journal.updated_at.value < journal.created_at.value
        || failure_required != journal.failure_code.is_some() || journal.action.stages_groups() != (
    journal.install_groups.len() > 0) || (journal.rollback_target_id.is_some() && journal.action
        != NodeModelAction::Rollback) || journal.install_groups.len() > MAX_INSTALL_GROUPS
        || journal.planned_group_ids.len() > MAX_INSTALL_GROUPS || journal.placement_group_ids.len()
        > MAX_INSTALL_GROUPS || journal.retained_groups.len() > MAX_INSTALL_GROUPS
        || journal.removal_node_ids.len() > MAX_NODES_PER_GROUP {
        return Err(NodeModelError::JournalCorrupt);
    }
    let initial = ids_of_initial(&journal.initial_group_states);
    let (sources, restorations) = ids_of_retained(&journal.retained_groups);
    let planned = if journal.action.stages_groups() {
        plan_matches(journal)
    } else {
        journal.runtime_receipts.len() == 0 && same_ids(&journal.placement_group_ids, &initial)
    };
    if !receipts_increase(&journal.runtime_receipts) || !planned || !fields_are_closed(journal)
        || !distinct_ids(&journal.placement_group_ids) || !distinct_ids(&journal.planned_group_ids)
        || !distinct_ids(&initial) || !distinct_ids(&sources) || !distinct_ids(&restorations)
        || !retained_groups_match(journal) || !increasing_ids(&journal.removal_node_ids)
        || !receipts_are_owned(journal) {
        return Err(NodeModelError::JournalCorrupt);
    }
    Ok(())
}

// ---------------------------------------------------------------------------
// Laws
// ---------------------------------------------------------------------------

/// A journal that was built from accepted names, bounded groups and coherent receipts.
pub open spec fn journal_coherent(journal: NodeModelJournalView) -> bool {
    &&& journal.idempotency_key.len() > 0
    &&& journal.logical_model.len() > 0
    &&& optional_named(journal.rollback_target_id)
    &&& optional_named(journal.failure_code)
    &&& forall|i: int|
        0 <= i < journal.install_groups.len() ==> {
            &&& bounded_nodes((#[trigger] journal.install_groups[i]).node_ids)
            &&& optional_named(journal.install_groups[i].explicit_candidate_id)
        }
    &&& forall|i: int|
        0 <= i < journal.retained_groups.len() ==> retained_group(
            (#[trigger] journal.retained_groups[i]).source_group_id,
            journal.retained_groups[i].restoration_group_id,
            journal.retained_groups[i].initial_state,
            journal.retained_groups[i].nodes,
        ) is Ok
    &&& forall|i: int|
        0 <= i < journal.runtime_receipts.len() ==> {
            &&& (#[trigger] journal.runtime_receipts[i]).candidate_id.len() > 0
            &&& (journal.runtime_receipts[i].disposition
                == NodeModelRuntimeDisposition::InstallPending) != (
            journal.runtime_receipts[i].installation_id is Some)
        }
}

/// Reading the stored form of one valid journal gives the journal back.
pub proof fn law_journal_round_trip(journal: NodeModelJournalView)
    requires
        journal_coherent(journal),
        journal_valid(journal),
    ensures
        journal_from(record_of(journal)) == Ok::<NodeModelJournalView, NodeModelError>(journal),
{
    let record = record_of(journal);
    law_identity_text(journal.operation_id);
    law_identity_text(journal.service_id);
    law_action_name(journal.action);
    law_removal_runtime_retention_name(journal.removal_runtime_retention);
    law_journal_state_name(journal.state);
    law_identity_texts(journal.planned_group_ids);
    law_identity_texts(journal.placement_group_ids);
    law_identity_texts(journal.removal_node_ids);
    let read = journal_of(record);
    assert forall|i: int| 0 <= i < journal.install_groups.len() implies install_group_readable(
        #[trigger] record.install_groups[i],
    ) && install_group_of(record.install_groups[i]) == journal.install_groups[i] by {
        law_identity_texts(journal.install_groups[i].node_ids);
    }
    assert(read.install_groups =~= journal.install_groups);
    assert forall|i: int| 0 <= i < journal.runtime_receipts.len() implies receipt_readable(
        #[trigger] record.runtime_receipts[i],
    ) && receipt_of(record.runtime_receipts[i]) == journal.runtime_receipts[i] by {
        let receipt = journal.runtime_receipts[i];
        law_identity_text(receipt.node_id);
        law_runtime_disposition_name(receipt.disposition);
        if let Some(id) = receipt.installation_id {
            law_identity_text(id);
        }
    }
    assert(read.runtime_receipts =~= journal.runtime_receipts);
    assert forall|i: int| 0 <= i < journal.initial_group_states.len() implies initial_state_readable(
        #[trigger] record.initial_group_states[i],
    ) && initial_state_of(record.initial_group_states[i]) == journal.initial_group_states[i] by {
        law_identity_text(journal.initial_group_states[i].placement_group_id);
        law_placement_group_state_name(journal.initial_group_states[i].state);
    }
    assert(read.initial_group_states =~= journal.initial_group_states);
    assert forall|i: int| 0 <= i < journal.retained_groups.len() implies retained_group_readable(
        #[trigger] record.retained_groups[i],
    ) && retained_group_of(record.retained_groups[i]) == journal.retained_groups[i] by {
        let group = journal.retained_groups[i];
        let stored = record.retained_groups[i];
        law_identity_text(group.source_group_id);
        law_identity_text(group.restoration_group_id);
        law_placement_group_state_name(group.initial_state);
        assert forall|k: int| 0 <= k < group.nodes.len() implies retained_node_readable(
            #[trigger] stored.nodes[k],
        ) && retained_node_of(stored.nodes[k]) == group.nodes[k] by {
            law_identity_text(group.nodes[k].node_id);
            law_identity_text(group.nodes[k].installation_id);
        }
        assert(retained_group_of(stored).nodes =~= group.nodes);
    }
    assert(read.retained_groups =~= journal.retained_groups);
    assert(read == journal);
}

/// Whatever is read from the store is a valid journal.
pub proof fn law_journal_read_valid(record: NodeModelJournalDatabaseRecordView)
    ensures
        journal_from(record) matches Ok(journal) ==> journal_valid(journal) && journal_coherent(
            journal,
        ),
{
    if journal_from(record) is Ok {
        let journal = journal_of(record);
        assert forall|i: int| 0 <= i < journal.install_groups.len() implies bounded_nodes(
            (#[trigger] journal.install_groups[i]).node_ids,
        ) && optional_named(journal.install_groups[i].explicit_candidate_id) by {
            assert(install_group_readable(record.install_groups[i]));
        }
        assert forall|i: int| 0 <= i < journal.retained_groups.len() implies retained_group(
            (#[trigger] journal.retained_groups[i]).source_group_id,
            journal.retained_groups[i].restoration_group_id,
            journal.retained_groups[i].initial_state,
            journal.retained_groups[i].nodes,
        ) is Ok by {
            assert(retained_group_readable(record.retained_groups[i]));
        }
        assert forall|i: int| 0 <= i < journal.runtime_receipts.len() implies (
        #[trigger] journal.runtime_receipts[i]).candidate_id.len() > 0 && (
        journal.runtime_receipts[i].disposition == NodeModelRuntimeDisposition::InstallPending) != (
        journal.runtime_receipts[i].installation_id is Some) by {
            assert(receipt_readable(record.runtime_receipts[i]));
        }
    }
}

/// A valid journal holds at most one receipt for each group and node.
pub proof fn law_receipts_unique(journal: NodeModelJournalView, left: int, right: int)
    requires
        journal_valid(journal),
        0 <= left < journal.runtime_receipts.len(),
        0 <= right < journal.runtime_receipts.len(),
        journal.runtime_receipts[left].group_index == journal.runtime_receipts[right].group_index,
        journal.runtime_receipts[left].node_id == journal.runtime_receipts[right].node_id,
    ensures
        left == right,
{
    let receipts = journal.runtime_receipts;
    let key = |receipt: NodeModelRuntimeReceiptView| receipt_key(receipt);
    if left < right {
        assert(key_lt(key(receipts[left]), key(receipts[right])));
    } else if right < left {
        assert(key_lt(key(receipts[right]), key(receipts[left])));
    }
}

// ---------------------------------------------------------------------------
// Commits
// ---------------------------------------------------------------------------

/// One journal write: its replay identity, its record and the revision it expects.
#[derive(Debug)]
pub struct JournalCommand {
    pub idempotency_key: String,
    pub record: NodeModelJournalDatabaseRecord,
    pub expected: DatabaseRevision,
}

/// What one [`JournalCommand`] holds.
pub struct JournalCommandView {
    pub idempotency_key: Seq<char>,
    pub record: NodeModelJournalDatabaseRecordView,
    pub expected: DatabaseRevision,
}

impl View for JournalCommand {
    type V = JournalCommandView;

    open spec fn view(&self) -> JournalCommandView {
        JournalCommandView {
            idempotency_key: self.idempotency_key@,
            record: self.record@,
            expected: self.expected,
        }
    }
}

/// What is known after one journal write was answered.
#[derive(Debug)]
pub enum JournalStep {
    /// The write is committed under this revision.
    Committed(VersionedNodeModelJournal),
    /// The journal must be read back and compared, under an exact revision when one is named.
    Reread { revision: Option<u64> },
}

/// What one [`JournalStep`] holds.
pub enum JournalStepView {
    Committed(VersionedNodeModelJournalView),
    Reread { revision: Option<u64> },
}

impl View for JournalStep {
    type V = JournalStepView;

    open spec fn view(&self) -> JournalStepView {
        match self {
            JournalStep::Committed(journal) => JournalStepView::Committed(journal@),
            JournalStep::Reread { revision } => JournalStepView::Reread { revision: *revision },
        }
    }
}

/// The replay identity of one journal creation.
pub open spec fn create_key(operation_id: OperationId) -> Seq<char> {
    "model_lifecycle:create:"@ + operation_id.text()
}

/// The replay identity of one journal replacement.
pub open spec fn replace_key(operation_id: OperationId, revision: u64) -> Seq<char> {
    "model_lifecycle:replace:"@ + operation_id.text() + ":"@ + decimal_text(revision as nat)
}

/// The journal's surface of one database failure.
pub open spec fn journal_failure(error: DatabaseError) -> NodeModelError {
    match error {
        DatabaseError::Conflict { .. } => NodeModelError::JournalConflict,
        DatabaseError::IdempotencyConflict => NodeModelError::JournalConflict,
        DatabaseError::Corrupt => NodeModelError::JournalCorrupt,
        _ => NodeModelError::JournalUnavailable,
    }
}

/// Converts one database failure to the journal's stable surface.
pub fn journal_database_error(error: DatabaseError) -> (failure: NodeModelError)
    ensures
        failure == journal_failure(error),
{
    match error {
        DatabaseError::Conflict { .. } | DatabaseError::IdempotencyConflict => {
            NodeModelError::JournalConflict
        },
        DatabaseError::Corrupt => NodeModelError::JournalCorrupt,
        DatabaseError::NotFound { .. } | DatabaseError::InvalidInput | DatabaseError::Unavailable
        | DatabaseError::Closed => NodeModelError::JournalUnavailable,
    }
}

/// A commit receipt that answers exactly the write that was sent.
pub open spec fn commit_answers(
    write: crate::database::DatabaseWriteResultView,
    idempotency_key: Seq<char>,
    operation_id: OperationId,
    mutation: DatabaseMutation,
    revision: u64,
) -> bool {
    &&& write.commit.idempotency_key == idempotency_key
    &&& write.commit.collection == DatabaseCollection::ModelLifecycles
    &&& write.commit.identifier == operation_id.text()
    &&& write.commit.mutation == mutation
    &&& write.commit.revision == revision
}

/// Verifies one database commit receipt before trusting its optimistic revision.
pub fn validate_journal_commit(
    result: &DatabaseWriteResult,
    idempotency_key: &str,
    operation_id: &OperationId,
    mutation: DatabaseMutation,
    revision: u64,
) -> (outcome: Result<(), NodeModelError>)
    ensures
        outcome == (if commit_answers(
            result@,
            idempotency_key@,
            *operation_id,
            mutation,
            revision,
        ) {
            Ok::<(), NodeModelError>(())
        } else {
            Err(NodeModelError::JournalCorrupt)
        }),
{
    let commit = &result.commit;
    if !text_is(commit.idempotency_key.as_str(), idempotency_key) || commit.collection
        != DatabaseCollection::ModelLifecycles || !text_is(
        commit.identifier.as_str(),
        operation_id.to_text().as_str(),
    ) || commit.mutation != mutation || commit.revision != revision {
        return Err(NodeModelError::JournalCorrupt);
    }
    Ok(())
}

/// What one answered creation means.
pub open spec fn creation_step(
    journal: NodeModelJournalView,
    result: Result<crate::database::DatabaseWriteResultView, DatabaseError>,
) -> Result<JournalStepView, NodeModelError> {
    match result {
        Ok(write) => if !commit_answers(
            write,
            create_key(journal.operation_id),
            journal.operation_id,
            DatabaseMutation::Created,
            1,
        ) {
            Err(NodeModelError::JournalCorrupt)
        } else {
            match write.disposition {
                DatabaseCommitDisposition::Applied => Ok(
                    JournalStepView::Committed(
                        VersionedNodeModelJournalView { journal, revision: 1 },
                    ),
                ),
                DatabaseCommitDisposition::Replayed => Ok(
                    JournalStepView::Reread { revision: Some(1) },
                ),
            }
        },
        Err(error) => if error is Conflict {
            Ok(JournalStepView::Reread { revision: None })
        } else {
            Err(journal_failure(error))
        },
    }
}

/// What one answered replacement means.
pub open spec fn replacement_step(
    journal: NodeModelJournalView,
    expected_revision: u64,
    result: Result<crate::database::DatabaseWriteResultView, DatabaseError>,
) -> Result<JournalStepView, NodeModelError> {
    if expected_revision == u64::MAX {
        Err(NodeModelError::JournalConflict)
    } else {
        let next = (expected_revision + 1) as u64;
        match result {
            Ok(write) => if !commit_answers(
                write,
                replace_key(journal.operation_id, expected_revision),
                journal.operation_id,
                DatabaseMutation::Updated,
                next,
            ) {
                Err(NodeModelError::JournalCorrupt)
            } else {
                match write.disposition {
                    DatabaseCommitDisposition::Applied => Ok(
                        JournalStepView::Committed(
                            VersionedNodeModelJournalView { journal, revision: next },
                        ),
                    ),
                    DatabaseCommitDisposition::Replayed => Ok(
                        JournalStepView::Reread { revision: Some(next) },
                    ),
                }
            },
            Err(error) => Err(journal_failure(error)),
        }
    }
}

/// What one journal lookup means.
pub open spec fn read_step(
    result: Result<
        crate::database::DatabaseResultView<NodeModelJournalDatabaseRecordView>,
        DatabaseError,
    >,
) -> Result<Option<VersionedNodeModelJournalView>, NodeModelError> {
    match result {
        Ok(crate::database::DatabaseResultView::Record(stored)) => match journal_from(stored.value) {
            Ok(journal) => Ok(
                Some(VersionedNodeModelJournalView { journal, revision: stored.revision }),
            ),
            Err(error) => Err(error),
        },
        Ok(crate::database::DatabaseResultView::Records(_)) => Err(NodeModelError::JournalCorrupt),
        Err(error) => if error is NotFound {
            Ok(None)
        } else {
            Err(journal_failure(error))
        },
    }
}

/// Every stored journal of one collection can be read.
pub open spec fn all_read(
    stored: Seq<crate::database::StoredView<NodeModelJournalDatabaseRecordView>>,
) -> bool {
    forall|i: int| 0 <= i < stored.len() ==> journal_from((#[trigger] stored[i]).value) is Ok
}

/// The journals of one collection in stored order.
pub open spec fn journals_of(
    stored: Seq<crate::database::StoredView<NodeModelJournalDatabaseRecordView>>,
) -> Seq<VersionedNodeModelJournalView> {
    Seq::new(
        stored.len(),
        |i: int|
            VersionedNodeModelJournalView {
                journal: journal_of(stored[i].value),
                revision: stored[i].revision,
            },
    )
}

/// What one journal listing means.
pub open spec fn all_step(
    result: Result<
        crate::database::DatabaseResultView<NodeModelJournalDatabaseRecordView>,
        DatabaseError,
    >,
) -> Result<Seq<VersionedNodeModelJournalView>, NodeModelError> {
    match result {
        Ok(crate::database::DatabaseResultView::Records(stored)) => if all_read(stored) {
            Ok(journals_of(stored))
        } else {
            Err(NodeModelError::JournalCorrupt)
        },
        Ok(crate::database::DatabaseResultView::Record(_)) => Err(NodeModelError::JournalCorrupt),
        Err(error) => Err(journal_failure(error)),
    }
}

/// What one journal that was read back means: it counts only when it holds what was written.
pub open spec fn reread_step(
    journal: NodeModelJournalView,
    revision: Option<u64>,
    stored: Result<Option<VersionedNodeModelJournalView>, NodeModelError>,
) -> Result<VersionedNodeModelJournalView, NodeModelError> {
    match stored {
        Err(error) => Err(error),
        Ok(None) => Err(NodeModelError::JournalConflict),
        Ok(Some(stored)) => if stored.journal == journal && (revision matches Some(exact) ==> exact
            == stored.revision) {
            Ok(stored)
        } else {
            Err(NodeModelError::JournalConflict)
        },
    }
}

/// Decides every journal commit; the database itself stays with the caller.
pub struct DatabaseNodeModelJournalStore {}

impl DatabaseNodeModelJournalStore {
    /// Returns the write that creates one normalized command.
    pub fn create_command(journal: &NodeModelJournal) -> (command: JournalCommand)
        ensures
            command@ == (JournalCommandView {
                idempotency_key: create_key(journal@.operation_id),
                record: record_of(journal@),
                expected: DatabaseRevision::Missing,
            }),
    {
        let idempotency_key = "model_lifecycle:create:".to_owned().concat(
            journal.operation_id.to_text().as_str(),
        );
        JournalCommand {
            idempotency_key,
            record: journal_record(journal),
            expected: DatabaseRevision::Missing,
        }
    }

    /// Creates or exactly replays one normalized command from the answer to its write.
    pub fn created(
        journal: &NodeModelJournal,
        result: Result<DatabaseWriteResult, DatabaseError>,
    ) -> (step: Result<JournalStep, NodeModelError>)
        ensures
            outcome(step) == creation_step(journal@, outcome(result)),
    {
        match result {
            Ok(write) => {
                let key = "model_lifecycle:create:".to_owned().concat(
                    journal.operation_id.to_text().as_str(),
                );
                validate_journal_commit(
                    &write,
                    key.as_str(),
                    &journal.operation_id,
                    DatabaseMutation::Created,
                    1,
                )?;
                match write.disposition {
                    DatabaseCommitDisposition::Applied => Ok(
                        JournalStep::Committed(VersionedNodeModelJournal::new(journal.copy(), 1)),
                    ),
                    DatabaseCommitDisposition::Replayed => Ok(
                        JournalStep::Reread { revision: Some(1) },
                    ),
                }
            },
            Err(error) => match error {
                DatabaseError::Conflict { .. } => Ok(JournalStep::Reread { revision: None }),
                _ => Err(journal_database_error(error)),
            },
        }
    }

    /// Returns the write that advances one exact optimistic journal revision.
    pub fn replace_command(journal: &NodeModelJournal, expected_revision: u64) -> (command: Result<
        JournalCommand,
        NodeModelError,
    >)
        ensures
            outcome(command) == (if expected_revision == u64::MAX {
                Err(NodeModelError::JournalConflict)
            } else {
                Ok(
                    JournalCommandView {
                        idempotency_key: replace_key(journal@.operation_id, expected_revision),
                        record: record_of(journal@),
                        expected: DatabaseRevision::Exact(expected_revision),
                    },
                )
            }),
    {
        if expected_revision == u64::MAX {
            return Err(NodeModelError::JournalConflict);
        }
        let idempotency_key = "model_lifecycle:replace:".to_owned().concat(
            journal.operation_id.to_text().as_str(),
        ).concat(":").concat(decimal(expected_revision).as_str());
        Ok(
            JournalCommand {
                idempotency_key,
                record: journal_record(journal),
                expected: DatabaseRevision::Exact(expected_revision),
            },
        )
    }

    /// Advances one exact optimistic journal revision from the answer to its write.
    pub fn replaced(
        journal: &NodeModelJournal,
        expected_revision: u64,
        result: Result<DatabaseWriteResult, DatabaseError>,
    ) -> (step: Result<JournalStep, NodeModelError>)
        ensures
            outcome(step) == replacement_step(journal@, expected_revision, outcome(result)),
    {
        if expected_revision == u64::MAX {
            return Err(NodeModelError::JournalConflict);
        }
        let next: u64 = expected_revision + 1;
        match result {
            Ok(write) => {
                let key = "model_lifecycle:replace:".to_owned().concat(
                    journal.operation_id.to_text().as_str(),
                ).concat(":").concat(decimal(expected_revision).as_str());
                validate_journal_commit(
                    &write,
                    key.as_str(),
                    &journal.operation_id,
                    DatabaseMutation::Updated,
                    next,
                )?;
                match write.disposition {
                    DatabaseCommitDisposition::Applied => Ok(
                        JournalStep::Committed(VersionedNodeModelJournal::new(journal.copy(), next)),
                    ),
                    DatabaseCommitDisposition::Replayed => Ok(
                        JournalStep::Reread { revision: Some(next) },
                    ),
                }
            },
            Err(error) => Err(journal_database_error(error)),
        }
    }

    /// Returns one fully validated command journal from the answer to its lookup.
    pub fn read(
        result: Result<DatabaseResult<NodeModelJournalDatabaseRecord>, DatabaseError>,
    ) -> (journal: Result<Option<VersionedNodeModelJournal>, NodeModelError>)
        ensures
            found(journal) == read_step(outcome(result)),
    {
        match result {
            Ok(DatabaseResult::Record(stored)) => {
                let revision = stored.revision;
                let journal = journal_from_record(stored.value)?;
                Ok(Some(VersionedNodeModelJournal::new(journal, revision)))
            },
            Ok(DatabaseResult::Records(_)) => Err(NodeModelError::JournalCorrupt),
            Err(error) => match error {
                DatabaseError::NotFound { .. } => Ok(None),
                _ => Err(journal_database_error(error)),
            },
        }
    }

    /// Returns every fully validated command journal in database order.
    pub fn all(
        result: Result<DatabaseResult<NodeModelJournalDatabaseRecord>, DatabaseError>,
    ) -> (journals: Result<Vec<VersionedNodeModelJournal>, NodeModelError>)
        ensures
            listed(journals) == all_step(outcome(result)),
    {
        let ghost answer = outcome(result);
        match result {
            Ok(DatabaseResult::Records(stored)) => {
                let ghost all = views(stored@);
                let mut rest = stored;
                let mut journals: Vec<VersionedNodeModelJournal> = Vec::new();
                while rest.len() > 0
                    invariant
                        answer == Ok::<
                            crate::database::DatabaseResultView<NodeModelJournalDatabaseRecordView>,
                            DatabaseError,
                        >(crate::database::DatabaseResultView::Records(all)),
                        answer == outcome(result),
                        rest@.len() + journals@.len() == all.len(),
                        forall|k: int|
                            0 <= k < rest@.len() ==> (#[trigger] rest@[k])@ == all[journals@.len()
                                + k],
                        forall|k: int|
                            0 <= k < journals@.len() ==> journal_from((#[trigger] all[k]).value)
                                is Ok && views(journals@)[k] == journals_of(all)[k],
                    decreases rest@.len(),
                {
                    let ghost done = journals@.len() as int;
                    assert(rest@[0]@ == all[done]);
                    let item = rest.remove(0);
                    let revision = item.revision;
                    match journal_from_record(item.value) {
                        Ok(journal) => {
                            journals.push(VersionedNodeModelJournal::new(journal, revision));
                        },
                        Err(error) => {
                            assert(journal_from(all[done].value) is Err);
                            assert(!all_read(all));
                            return Err(error);
                        },
                    }
                    assert(views(journals@)[done] == journals_of(all)[done]);
                    assert forall|k: int| 0 <= k < journals@.len() implies journal_from(
                        (#[trigger] all[k]).value,
                    ) is Ok && views(journals@)[k] == journals_of(all)[k] by {
                        if k < done {
                            assert(views(journals@)[k] == journals@[k]@);
                        }
                    }
                }
                assert(views(journals@) =~= journals_of(all));
                Ok(journals)
            },
            Ok(DatabaseResult::Record(_)) => Err(NodeModelError::JournalCorrupt),
            Err(error) => Err(journal_database_error(error)),
        }
    }

    /// Accepts one journal that was read back only when it holds what was written.
    pub fn reread(
        journal: &NodeModelJournal,
        revision: Option<u64>,
        stored: Result<Option<VersionedNodeModelJournal>, NodeModelError>,
    ) -> (result: Result<VersionedNodeModelJournal, NodeModelError>)
        ensures
            outcome(result) == reread_step(journal@, revision, found(stored)),
    {
        match stored? {
            None => Err(NodeModelError::JournalConflict),
            Some(stored) => {
                let exact = match revision {
                    Some(exact) => exact == stored.revision,
                    None => true,
                };
                if exact && stored.journal.same(journal) {
                    Ok(stored)
                } else {
                    Err(NodeModelError::JournalConflict)
                }
            },
        }
    }
}

/// A creation that the database applied, or replayed and then gives back, returns the journal
/// that was written under the first revision.
pub proof fn law_creation_keeps_journal(
    journal: NodeModelJournalView,
    result: Result<crate::database::DatabaseWriteResultView, DatabaseError>,
    stored: Result<Option<VersionedNodeModelJournalView>, NodeModelError>,
)
    ensures
        creation_step(journal, result) matches Ok(JournalStepView::Committed(committed)) ==> committed
            == (VersionedNodeModelJournalView { journal, revision: 1 }),
        creation_step(journal, result) matches Ok(JournalStepView::Reread { revision }) ==> (
        reread_step(journal, revision, stored) matches Ok(read) ==> read.journal == journal),
{
}

} // verus!
